//! The channel streams page's initial-data model, and the policy walk
//! that picks a live or upcoming stream out of its rich grid.

use vstd::prelude::*;

use crate::youtube::context::ChannelSearchOptions;
use crate::youtube::error::Error;
use crate::youtube::types::{Accessibility, CommandMetadata, ImageContainer, LocalizedText};

verus! {

/// The page's embedded initial data.
#[derive(Debug)]
pub struct YouTubeInitialData {
    pub contents: PageContentsRenderer,
}

/// The page contents: a two-column browse result with its tabs.
#[derive(Debug)]
pub enum PageContentsRenderer {
    TwoColumnBrowseResultsRenderer { tabs: Vec<TabItemRenderer> },
}

/// One tab of the browse result.
#[derive(Debug)]
pub enum TabItemRenderer {
    TabRenderer {
        endpoint: FeedEndpoint,
        title: String,
        selected: bool,
        content: Option<FeedContentsRenderer>,
    },
    ExpandableTabRenderer,
}

/// The endpoint a tab navigates to.
#[derive(Debug)]
pub struct FeedEndpoint {
    pub browse_endpoint: BrowseEndpoint,
    pub command_metadata: CommandMetadata,
}

/// A browse endpoint.
#[derive(Debug, Clone)]
pub struct BrowseEndpoint {
    pub browse_id: String,
    pub params: String,
    pub canonical_base_url: String,
}

/// A tab's feed contents.
#[derive(Debug)]
pub enum FeedContentsRenderer {
    RichGridRenderer { contents: Vec<RichGridItem> },
    Other,
}

/// One item of the rich grid.
#[derive(Debug)]
pub enum RichGridItem {
    RichItemRenderer { content: RichItemContent },
    ContinuationItemRenderer { trigger: ContinuationItemTrigger },
}

/// The content of a rich item.
#[derive(Debug)]
pub enum RichItemContent {
    VideoRenderer {
        description_snippet: LocalizedText,
        thumbnail: ImageContainer,
        thumbnail_overlays: Vec<ThumbnailOverlay>,
        video_id: String,
    },
}

/// An overlay on a video thumbnail.
#[derive(Debug)]
pub enum ThumbnailOverlay {
    TimeStatus {
        style: VideoTimeStatus,
    },
    ToggleButton {
        is_toggled: Option<bool>,
        toggled_accessibility: Accessibility,
        toggled_tooltip: String,
        untoggled_accessibility: Accessibility,
        untoggled_tooltip: String,
    },
    NowPlaying {
        text: LocalizedText,
    },
}

/// The time status a thumbnail overlay shows.
#[derive(Debug, Clone, Copy, PartialEq, Eq, Structural)]
pub enum VideoTimeStatus {
    Upcoming,
    Live,
    Default,
}

/// What triggers a continuation item.
#[derive(Debug, Clone, Copy, PartialEq, Eq, Structural)]
pub enum ContinuationItemTrigger {
    ContinuationTriggerOnItemShown,
}

/// The feed header of a tab.
#[derive(Debug)]
pub enum FeedHeaderRenderer {
    FeedFilterChipBarRenderer { contents: Vec<FeedFilterChip>, style_type: String },
}

/// One filter chip of a feed header.
#[derive(Debug, Clone, Copy)]
pub enum FeedFilterChip {
    ChipCloudChipRenderer { is_selected: bool },
}

/// Whether one overlay is a time status in the wanted style.
pub open spec fn spec_overlay_is(o: ThumbnailOverlay, live: bool) -> bool {
    o matches ThumbnailOverlay::TimeStatus { style } && style == (if live {
        VideoTimeStatus::Live
    } else {
        VideoTimeStatus::Upcoming
    })
}

/// Whether any overlay is a time status in the wanted style.
pub open spec fn spec_overlays_have(overlays: Seq<ThumbnailOverlay>, live: bool) -> bool {
    exists|k: int| 0 <= k < overlays.len() && spec_overlay_is(#[trigger] overlays[k], live)
}

/// Whether a grid item is a video carrying a time-status overlay in the
/// wanted style.
pub open spec fn spec_item_has_status(item: RichGridItem, live: bool) -> bool {
    match item {
        RichGridItem::RichItemRenderer { content } => match content {
            RichItemContent::VideoRenderer { thumbnail_overlays, .. } => spec_overlays_have(
                thumbnail_overlays@,
                live,
            ),
        },
        _ => false,
    }
}

/// The video id of a grid item that renders a video.
pub open spec fn spec_item_video_id(item: RichGridItem) -> Seq<char> {
    match item {
        RichGridItem::RichItemRenderer { content } => match content {
            RichItemContent::VideoRenderer { video_id, .. } => video_id@,
        },
        _ => Seq::empty(),
    }
}

/// The first grid item at or past `from` carrying the wanted status.
pub open spec fn spec_first_status(items: Seq<RichGridItem>, from: int, live: bool) -> Option<
    int,
>
    decreases items.len() - from,
{
    if from < 0 || from >= items.len() {
        None
    } else if spec_item_has_status(items[from], live) {
        Some(from)
    } else {
        spec_first_status(items, from + 1, live)
    }
}

/// The last grid item at or before `until` carrying the wanted status.
pub open spec fn spec_last_status(items: Seq<RichGridItem>, until: int, live: bool) -> Option<
    int,
>
    decreases until + 1,
{
    if until < 0 || until >= items.len() {
        None
    } else if spec_item_has_status(items[until], live) {
        Some(until)
    } else {
        spec_last_status(items, until - 1, live)
    }
}

/// The search runs forward under the first-stream policies and backward
/// under the latest-stream policies.
pub open spec fn spec_policy_forward(o: ChannelSearchOptions) -> bool {
    o is FirstLive || o is FirstLiveOrUpcoming
}

/// Upcoming streams qualify only under the or-upcoming policies.
pub open spec fn spec_policy_upcoming(o: ChannelSearchOptions) -> bool {
    o is FirstLiveOrUpcoming || o is LatestLiveOrUpcoming
}

/// The stream the policy picks from a grid: the first live item in the
/// policy's direction; else, when the policy admits upcoming streams,
/// the first upcoming item in that direction; else none.
pub open spec fn spec_selected_stream(
    items: Seq<RichGridItem>,
    o: ChannelSearchOptions,
) -> Option<Seq<char>> {
    let live_idx = if spec_policy_forward(o) {
        spec_first_status(items, 0, true)
    } else {
        spec_last_status(items, items.len() - 1, true)
    };
    match live_idx {
        Some(i) => Some(spec_item_video_id(items[i])),
        None => if spec_policy_upcoming(o) {
            let up_idx = if spec_policy_forward(o) {
                spec_first_status(items, 0, false)
            } else {
                spec_last_status(items, items.len() - 1, false)
            };
            match up_idx {
                Some(i) => Some(spec_item_video_id(items[i])),
                None => None,
            }
        } else {
            None
        },
    }
}

/// Whether any overlay of the list is a time status in the wanted
/// style.
fn overlays_have(overlays: &Vec<ThumbnailOverlay>, live: bool) -> (r: bool)
    ensures
        r == spec_overlays_have(overlays@, live),
{
    let mut k: usize = 0;
    while k < overlays.len()
        invariant
            0 <= k <= overlays@.len(),
            forall|m: int| 0 <= m < k ==> !spec_overlay_is(#[trigger] overlays@[m], live),
        decreases overlays@.len() - k,
    {
        let ov = &overlays[k];
        match ov {
            ThumbnailOverlay::TimeStatus { style } => {
                let hit = match style {
                    VideoTimeStatus::Live => live,
                    VideoTimeStatus::Upcoming => !live,
                    VideoTimeStatus::Default => false,
                };
                if hit {
                    proof {
                        assert(spec_overlay_is(overlays@[k as int], live));
                    }
                    return true;
                }
            },
            _ => {},
        }
        proof {
            assert(!spec_overlay_is(overlays@[k as int], live));
        }
        k = k + 1;
    }
    proof {
        assert(!spec_overlays_have(overlays@, live)) by {
            if spec_overlays_have(overlays@, live) {
                let m = choose|m: int|
                    0 <= m < overlays@.len() && spec_overlay_is(
                        #[trigger] overlays@[m],
                        live,
                    );
            }
        }
    }
    false
}

/// Whether this grid item carries the wanted status.
fn item_has_status(item: &RichGridItem, live: bool) -> (r: bool)
    ensures
        r == spec_item_has_status(*item, live),
{
    match item {
        RichGridItem::RichItemRenderer { content } => match content {
            RichItemContent::VideoRenderer { thumbnail_overlays, .. } => {
                overlays_have(thumbnail_overlays, live)
            },
        },
        _ => false,
    }
}

/// Find the policy's pick of a given status in the grid.
fn find_status(items: &Vec<RichGridItem>, forward: bool, live: bool) -> (r: Option<usize>)
    ensures
        forward ==> (match r {
            Some(i) => spec_first_status(items@, 0, live) == Some(i as int),
            None => spec_first_status(items@, 0, live) is None,
        }),
        !forward ==> (match r {
            Some(i) => spec_last_status(items@, items@.len() - 1, live) == Some(i as int),
            None => spec_last_status(items@, items@.len() - 1, live) is None,
        }),
        r matches Some(i) ==> i < items@.len() && spec_item_has_status(items@[i as int], live),
{
    let n = items.len();
    if forward {
        let mut i: usize = 0;
        while i < n
            invariant
                forward,
                0 <= i <= n,
                n == items@.len(),
                spec_first_status(items@, 0, live) == spec_first_status(items@, i as int, live),
            decreases n - i,
        {
            if item_has_status(&items[i], live) {
                proof {
                    assert(spec_first_status(items@, i as int, live) == Some(i as int));
                }
                return Some(i);
            }
            i = i + 1;
        }
        proof {
            assert(spec_first_status(items@, n as int, live) is None);
        }
        None
    } else {
        if n == 0 {
            return None;
        }
        let mut i: usize = n;
        while i > 0
            invariant
                !forward,
                0 <= i <= n,
                n == items@.len(),
                spec_last_status(items@, n - 1, live) == spec_last_status(
                    items@,
                    i - 1,
                    live,
                ),
            decreases i,
        {
            i = i - 1;
            if item_has_status(&items[i], live) {
                proof {
                    assert(spec_last_status(items@, i as int, live) == Some(i as int));
                }
                return Some(i);
            }
        }
        proof {
            assert(spec_last_status(items@, -1, live) is None);
        }
        None
    }
}

/// The first tab of the page that renders a feed titled `Live`.
pub open spec fn spec_live_tab(tabs: Seq<TabItemRenderer>, from: int) -> Option<int>
    decreases tabs.len() - from,
{
    if from < 0 || from >= tabs.len() {
        None
    } else if tabs[from] matches TabItemRenderer::TabRenderer { title, content, .. } && title@
        == "Live"@ && content is Some {
        Some(from)
    } else {
        spec_live_tab(tabs, from + 1)
    }
}

/// Walk the page's live tab and pick a stream under the given policy.
/// A page without a live tab, whose live tab is not a rich grid, or
/// whose grid offers no qualifying stream, has no matching stream.
pub fn select_stream(
    data: &YouTubeInitialData,
    options: ChannelSearchOptions,
    channel: &str,
) -> (r: Result<String, Error>)
    ensures
        ({
            let tabs = data.contents->TwoColumnBrowseResultsRenderer_tabs;
            &&& r is Ok <==> (spec_live_tab(tabs@, 0) matches Some(t)
                && tabs@[t]->TabRenderer_content->0 matches FeedContentsRenderer::RichGridRenderer {
                    contents,
                } && spec_selected_stream(contents@, options) is Some)
            &&& r matches Ok(v) ==> Some(v@) == spec_selected_stream(
                spec_live_tab_grid(tabs@),
                options,
            )
            &&& r matches Err(e) ==> e matches Error::NoMatchingStream(s) && s@ == channel@
        }),
{
    proof {
        reveal_strlit("Live");
    }
    let PageContentsRenderer::TwoColumnBrowseResultsRenderer { tabs } = &data.contents;
    let n = tabs.len();
    let mut t: usize = 0;
    let mut found: Option<usize> = None;
    while t < n && found.is_none()
        invariant
            0 <= t <= n,
            n == tabs@.len(),
            found is None ==> spec_live_tab(tabs@, 0) == spec_live_tab(tabs@, t as int),
            found matches Some(f) ==> spec_live_tab(tabs@, 0) == Some(f as int) && f < n && (
            tabs@[f as int] matches TabItemRenderer::TabRenderer { content, .. } && content
                is Some),
        decreases n - t + (if found is None {
            1int
        } else {
            0int
        }),
    {
        match &tabs[t] {
            TabItemRenderer::TabRenderer { title, content, .. } => {
                if content.is_some() && crate::text::str_eq(title.as_str(), "Live") {
                    proof {
                        assert(spec_live_tab(tabs@, t as int) == Some(t as int));
                    }
                    found = Some(t);
                } else {
                    proof {
                        assert(spec_live_tab(tabs@, t as int) == spec_live_tab(tabs@, t + 1));
                    }
                    t = t + 1;
                }
            },
            _ => {
                t = t + 1;
            },
        }
    }
    let f = match found {
        Some(f) => f,
        None => {
            return Err(Error::NoMatchingStream(channel.to_owned()));
        },
    };
    let content = match &tabs[f] {
        TabItemRenderer::TabRenderer { content, .. } => content.as_ref().unwrap(),
        _ => {
            proof {
                assert(false);
            }
            return Err(Error::NoMatchingStream(channel.to_owned()));
        },
    };
    let contents = match content {
        FeedContentsRenderer::RichGridRenderer { contents } => contents,
        FeedContentsRenderer::Other => {
            return Err(Error::NoMatchingStream(channel.to_owned()));
        },
    };
    let forward = match options {
        ChannelSearchOptions::FirstLive => true,
        ChannelSearchOptions::FirstLiveOrUpcoming => true,
        _ => false,
    };
    let allow_upcoming = match options {
        ChannelSearchOptions::FirstLiveOrUpcoming => true,
        ChannelSearchOptions::LatestLiveOrUpcoming => true,
        _ => false,
    };
    match find_status(contents, forward, true) {
        Some(i) => {
            match &contents[i] {
                RichGridItem::RichItemRenderer { content } => match content {
                    RichItemContent::VideoRenderer { video_id, .. } => {
                        return Ok(video_id.clone());
                    },
                },
                _ => {
                    proof {
                        assert(false);
                    }
                },
            }
        },
        None => {},
    }
    if allow_upcoming {
        match find_status(contents, forward, false) {
            Some(i) => {
                match &contents[i] {
                    RichGridItem::RichItemRenderer { content } => match content {
                        RichItemContent::VideoRenderer { video_id, .. } => {
                            return Ok(video_id.clone());
                        },
                    },
                    _ => {
                        proof {
                            assert(false);
                        }
                    },
                }
            },
            None => {},
        }
    }
    Err(Error::NoMatchingStream(channel.to_owned()))
}

/// The grid of the page's live tab, where the walk reads it.
pub open spec fn spec_live_tab_grid(tabs: Seq<TabItemRenderer>) -> Seq<RichGridItem> {
    match spec_live_tab(tabs, 0) {
        Some(t) => match tabs[t]->TabRenderer_content->0 {
            FeedContentsRenderer::RichGridRenderer { contents } => contents@,
            _ => Seq::empty(),
        },
        None => Seq::empty(),
    }
}

} // verus!
