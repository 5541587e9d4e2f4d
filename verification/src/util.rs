use vstd::prelude::*;

verus! {

/// Slice a string by code-point indices: the result covers the characters
/// `start..end`. Returns `None` when either index lies past the end of the
/// string (counted in code points, not bytes); an inverted range inside the
/// string yields the empty string.
pub fn get_utf8_slice<'a>(s: &'a str, start: usize, end: usize) -> (r: Option<&'a str>)
    ensures
        r is Some <==> start <= s@.len() && end <= s@.len(),
        r matches Some(sub) ==> sub@ == if start <= end {
            s@.subrange(start as int, end as int)
        } else {
            Seq::<char>::empty()
        },
{
    let n = s.unicode_len();
    if start <= n && end <= n {
        if start <= end {
            Some(s.substring_char(start, end))
        } else {
            let sub = s.substring_char(start, start);
            proof {
                assert(sub@ =~= Seq::<char>::empty());
            }
            Some(sub)
        }
    } else {
        None
    }
}


/// Represents a container that hands its contents on only when
/// non-empty.
pub trait MapNonempty: Sized {
    type T;

    /// The payload handed on: the value itself when non-empty.
    spec fn spec_payload(self) -> Option<Self::T>;

    /// Apply `f` to the payload when there is one.
    fn and_then_nonempty<B, F: FnOnce(Self::T) -> Option<B>>(self, f: F) -> (r: Option<B>)
        requires
            self.spec_payload() matches Some(t) ==> f.requires((t,)),
        ensures
            self.spec_payload() is None ==> r is None,
            self.spec_payload() matches Some(t) ==> f.ensures((t,), r),
    ;
}

impl MapNonempty for String {
    type T = String;

    open spec fn spec_payload(self) -> Option<String> {
        if self@.len() == 0 {
            None
        } else {
            Some(self)
        }
    }

    fn and_then_nonempty<B, F: FnOnce(String) -> Option<B>>(self, f: F) -> (r: Option<B>) {
        if self.as_str().unicode_len() == 0 {
            None
        } else {
            f(self)
        }
    }
}

impl MapNonempty for Option<String> {
    type T = String;

    open spec fn spec_payload(self) -> Option<String> {
        match self {
            Some(c) => if c@.len() == 0 {
                None
            } else {
                Some(c)
            },
            None => None,
        }
    }

    fn and_then_nonempty<B, F: FnOnce(String) -> Option<B>>(self, f: F) -> (r: Option<B>) {
        match self {
            Some(c) => {
                if c.as_str().unicode_len() == 0 {
                    None
                } else {
                    f(c)
                }
            },
            None => None,
        }
    }
}

} // verus!
