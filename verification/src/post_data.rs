//! The body of a submitted form, read by hand: up to eight pairs of a name
//! and a value.
//!
//! The body is cut at each `&` into pieces, of which the first eight count.
//! A piece is cut at each `=`: what stands before the first `=` is the name,
//! what stands between the first and the second is the value. Name and
//! value are then percent-decoded.

use percent_encoding::percent_decode_str;
use vstd::prelude::*;
use crate::form::{first_value, pairs_view};
use crate::text::{from_chars, pieces_view, same_text, split_chars, split_on, to_chars};

verus! {

/// How many pairs a body can hold.
pub const MAX_PARAM_NB: usize = 8;

/// A name with its value.
#[derive(Debug)]
struct PostDataElement {
    key: String,
    value: String,
}

/// The pairs that a body holds. There are always eight: those that the body
/// does not fill have an empty name and an empty value.
#[derive(Debug)]
pub struct PostData {
    params: Vec<PostDataElement>,
}

/// What `percent_decode_str(..).decode_utf8_lossy()` of the crate
/// `percent_encoding` makes of a text: each `%` that two hex digits follow
/// becomes the byte that they write, and the bytes are read as UTF-8, with
/// the replacement character in place of what is none.
pub uninterp spec fn percent_decoded(s: Seq<char>) -> Seq<char>;

/// `percent_decode_str` and `PercentDecode::decode_utf8_lossy` of the crate
/// `percent_encoding`: decodes a text. The result depends on the text
/// alone.
#[verifier::external_body]
fn percent_decode(s: &str) -> (out: String)
    ensures
        out@ == percent_decoded(s@),
{
    percent_decode_str(s).decode_utf8_lossy().to_string()
}

/// The name and the value that the pieces `parts` of a piece hold, before
/// they are decoded. A piece without `=` has the value `NO_VALUE`.
pub open spec fn raw_pair(parts: Seq<Seq<char>>) -> (Seq<char>, Seq<char>) {
    (
        if parts.len() > 0 {
            parts[0]
        } else {
            "NO_NAME"@
        },
        if parts.len() > 1 {
            parts[1]
        } else {
            "NO_VALUE"@
        },
    )
}

/// The pair that a piece of the body holds, given what decoding makes of
/// its name and of its value.
pub open spec fn pair_of(piece: Seq<char>) -> (Seq<char>, Seq<char>) {
    let raw = raw_pair(split_on(piece, '='));
    (percent_decoded(raw.0), percent_decoded(raw.1))
}

/// The eight pairs that the body `s` holds.
pub open spec fn posted(s: Seq<char>) -> Seq<(Seq<char>, Seq<char>)> {
    let pieces = split_on(s, '&');
    Seq::new(
        8,
        |i: int|
            if i < pieces.len() {
                pair_of(pieces[i])
            } else {
                (Seq::empty(), Seq::empty())
            },
    )
}

/// The pairs `params`, as mathematical values.
spec fn params_view(params: Seq<PostDataElement>) -> Seq<(Seq<char>, Seq<char>)> {
    params.map_values(|e: PostDataElement| (e.key@, e.value@))
}

/// The eight pairs that are kept of `pairs`: the first eight, and pairs
/// with an empty name and an empty value where `pairs` has fewer.
pub open spec fn filled(pairs: Seq<(Seq<char>, Seq<char>)>) -> Seq<(Seq<char>, Seq<char>)> {
    Seq::new(
        8,
        |i: int|
            if i < pairs.len() {
                pairs[i]
            } else {
                (Seq::empty(), Seq::empty())
            },
    )
}

/// The name and the value that a piece holds, before they are decoded.
pub fn split_pair(piece: &Vec<char>) -> (pair: (String, String))
    ensures
        (pair.0@, pair.1@) == raw_pair(split_on(piece@, '=')),
{
    let parts = split_chars(piece, '=');
    assert(pieces_view(parts@).len() == parts.len());
    let key = if parts.len() > 0 {
        assert(pieces_view(parts@)[0] == parts@[0]@);
        from_chars(&parts[0])
    } else {
        "NO_NAME".to_owned()
    };
    let value = if parts.len() > 1 {
        assert(pieces_view(parts@)[1] == parts@[1]@);
        from_chars(&parts[1])
    } else {
        "NO_VALUE".to_owned()
    };
    (key, value)
}

impl PostData {
    /// The eight pairs.
    pub closed spec fn view(&self) -> Seq<(Seq<char>, Seq<char>)> {
        params_view(self.params@)
    }

    /// The first eight of the pairs `pairs`, as they are.
    pub fn from_pairs(pairs: &Vec<(String, String)>) -> (data: PostData)
        ensures
            data@ == filled(pairs_view(pairs@)),
    {
        let ghost all = pairs_view(pairs@);
        let mut params: Vec<PostDataElement> = Vec::new();
        let mut i: usize = 0;
        while i < MAX_PARAM_NB
            invariant
                i <= MAX_PARAM_NB,
                params.len() == i,
                all == pairs_view(pairs@),
                forall|j: int| 0 <= j < i ==> (#[trigger] params_view(params@)[j]) == filled(all)[j],
            decreases MAX_PARAM_NB - i,
        {
            let element = if i < pairs.len() {
                assert(all[i as int] == (pairs@[i as int].0@, pairs@[i as int].1@));
                PostDataElement { key: pairs[i].0.clone(), value: pairs[i].1.clone() }
            } else {
                PostDataElement { key: String::new(), value: String::new() }
            };
            let ghost before = params@;
            params.push(element);
            assert forall|j: int| 0 <= j < i + 1 implies (#[trigger] params_view(params@)[j])
                == filled(all)[j] by {
                if j < i {
                    assert(params@[j] == before[j]);
                    assert(params_view(before)[j] == filled(all)[j]);
                }
            }
            i = i + 1;
        }
        let data = PostData { params };
        assert(data@ =~= filled(all));
        data
    }

    /// The pairs that the body `s` holds.
    pub fn from_string(s: String) -> (data: PostData)
        ensures
            data@ == posted(s@),
    {
        let chars = to_chars(s.as_str());
        let pieces = split_chars(&chars, '&');
        let ghost all = split_on(s@, '&');
        assert(pieces_view(pieces@).len() == pieces.len());
        let mut decoded: Vec<(String, String)> = Vec::new();
        let mut i: usize = 0;
        while i < MAX_PARAM_NB && i < pieces.len()
            invariant
                i <= MAX_PARAM_NB,
                i <= pieces.len(),
                decoded.len() == i,
                all == split_on(s@, '&'),
                pieces_view(pieces@) == all,
                pieces.len() == all.len(),
                forall|j: int| 0 <= j < i ==> (#[trigger] pairs_view(decoded@)[j]) == pair_of(all[j]),
            decreases MAX_PARAM_NB - i,
        {
            assert(pieces_view(pieces@)[i as int] == pieces@[i as int]@);
            let raw = split_pair(&pieces[i]);
            let pair = (percent_decode(raw.0.as_str()), percent_decode(raw.1.as_str()));
            let ghost before = decoded@;
            decoded.push(pair);
            assert forall|j: int| 0 <= j < i + 1 implies (#[trigger] pairs_view(decoded@)[j])
                == pair_of(all[j]) by {
                if j < i {
                    assert(decoded@[j] == before[j]);
                    assert(pairs_view(before)[j] == pair_of(all[j]));
                }
            }
            i = i + 1;
        }
        let data = PostData::from_pairs(&decoded);
        assert(data@ =~= posted(s@)) by {
            assert forall|j: int| 0 <= j < 8 implies filled(pairs_view(decoded@))[j] == posted(
                s@,
            )[j] by {
                if j < decoded.len() {
                    assert(pairs_view(decoded@)[j] == pair_of(all[j]));
                }
            }
        }
        data
    }

    /// The value of the first pair that has the name `key`, if one has.
    pub fn read_value(&self, key: &str) -> (value: Option<String>)
        ensures
            match value {
                Some(v) => first_value(self@, key@) == Some(v@),
                None => first_value(self@, key@) is None,
            },
    {
        let ghost all = self@;
        let mut i: usize = 0;
        assert(all.skip(0) == all);
        while i < self.params.len()
            invariant
                i <= self.params.len(),
                all == params_view(self.params@),
                first_value(all, key@) == first_value(all.skip(i as int), key@),
            decreases self.params.len() - i,
        {
            let ghost rest = all.skip(i as int);
            assert(rest[0] == (self.params@[i as int].key@, self.params@[i as int].value@));
            assert(rest.skip(1) == all.skip(i + 1));
            if same_text(self.params[i].key.as_str(), key) {
                return Some(self.params[i].value.clone());
            }
            i = i + 1;
        }
        None
    }

    /// Whether a pair has the name `key`.
    pub fn is_key_exists(&self, key: &str) -> (found: bool)
        ensures
            found == first_value(self@, key@) is Some,
    {
        self.read_value(key).is_some()
    }
}

} // verus!
