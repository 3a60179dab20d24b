//! The human-readable message catalog: the exact user-facing wording for
//! each diagnostic, kept separate from the diagnostic data itself.
//!
//! The sentinel attribute key (`node value`) denotes a tag's own text
//! content; every message about it is worded without echoing the key.

use vstd::prelude::*;

use crate::diag::{spec_node_value_key, Error, ErrorS, Namespace, TagName, TagNameS};
use crate::numfmt::{spec_dec_int, spec_dec_nat, u64_to_dec};

verus! {

/// How a tag name is printed: `podcast:local` for the validated namespace,
/// plain `local` otherwise.
pub open spec fn spec_tag_display(t: TagNameS) -> Seq<char> {
    match t.ns {
        Some(Namespace::Podcast) => "podcast:"@ + t.local,
        None => t.local,
    }
}

impl TagName {
    /// Renders the tag name for display.
    pub fn display(&self) -> (s: String)
        ensures
            s@ == spec_tag_display(self@),
    {
        match self.0 {
            Some(Namespace::Podcast) => {
                let mut s = String::from_str("podcast:");
                s.append(self.1.as_str());
                proof {
                    assert(s@ =~= spec_tag_display(self@));
                }
                s
            },
            None => {
                let s = self.1.clone();
                proof {
                    assert(s@ =~= spec_tag_display(self@));
                }
                s
            },
        }
    }
}

/// The exact user-facing text for a diagnostic.
pub open spec fn spec_error_message(e: ErrorS) -> Seq<char> {
    match e {
        ErrorS::MissingAttribute(k) => {
            if k == spec_node_value_key() {
                "Missing value"@
            } else {
                "Missing attribute «"@ + k + "»"@
            }
        },
        ErrorS::InvalidAttribute(k, v) => {
            if k == spec_node_value_key() {
                "Invalid value «"@ + v + "»"@
            } else {
                "Attribute «"@ + k + "» has invalid value «"@ + v + "»"@
            }
        },
        ErrorS::InvalidAttributeWithReason(k, v, r) => {
            if k == spec_node_value_key() {
                "Invalid value «"@ + v + "»: "@ + r
            } else {
                "Attribute «"@ + k + "» has invalid value «"@ + v + "»: "@ + r
            }
        },
        ErrorS::MissingChild(t) => "Missing child «"@ + spec_tag_display(t) + "»"@,
        ErrorS::MultipleChildren(t) => "Only one child «"@ + spec_tag_display(t)
            + "» is allowed"@,
        ErrorS::AttributeExceedsMaxLength(k, v, m) => {
            if k == spec_node_value_key() {
                "Value «"@ + v + "» exceeds maximum length of "@ + spec_dec_int(m)
                    + " characters"@
            } else {
                "Attribute «"@ + k + "» exceeds maximum length of "@ + spec_dec_int(m)
                    + " characters"@
            }
        },
        ErrorS::Custom(m) => m,
        ErrorS::CustomWithExtraInfo(m, _) => m,
    }
}

/// The disclosable extra explanation of a diagnostic, where one exists.
pub open spec fn spec_error_extra_info(e: ErrorS) -> Option<Seq<char>> {
    match e {
        ErrorS::CustomWithExtraInfo(_, extra) => Some(extra),
        _ => None,
    }
}

fn is_node_value_key(k: &String) -> (b: bool)
    ensures
        b == (k@ == spec_node_value_key()),
{
    let sentinel = crate::diag::node_value_key();
    *k == sentinel
}

/// Renders a diagnostic as its exact user-facing text.
pub fn error_message(e: &Error) -> (s: String)
    ensures
        s@ == spec_error_message(e@),
{
    match e {
        Error::MissingAttribute(k) => {
            if is_node_value_key(k) {
                proof {
                    reveal_strlit("node value");
                    reveal_strlit("Missing value");
                }
                String::from_str("Missing value")
            } else {
                let mut s = String::from_str("Missing attribute «");
                s.append(k.as_str());
                s.append("»");
                proof {
                    assert(s@ =~= spec_error_message(e@));
                }
                s
            }
        },
        Error::InvalidAttribute(k, v) => {
            if is_node_value_key(k) {
                let mut s = String::from_str("Invalid value «");
                s.append(v.as_str());
                s.append("»");
                proof {
                    assert(s@ =~= spec_error_message(e@));
                }
                s
            } else {
                let mut s = String::from_str("Attribute «");
                s.append(k.as_str());
                s.append("» has invalid value «");
                s.append(v.as_str());
                s.append("»");
                proof {
                    assert(s@ =~= spec_error_message(e@));
                }
                s
            }
        },
        Error::InvalidAttributeWithReason(k, v, r) => {
            if is_node_value_key(k) {
                let mut s = String::from_str("Invalid value «");
                s.append(v.as_str());
                s.append("»: ");
                s.append(r.as_str());
                proof {
                    assert(s@ =~= spec_error_message(e@));
                }
                s
            } else {
                let mut s = String::from_str("Attribute «");
                s.append(k.as_str());
                s.append("» has invalid value «");
                s.append(v.as_str());
                s.append("»: ");
                s.append(r.as_str());
                proof {
                    assert(s@ =~= spec_error_message(e@));
                }
                s
            }
        },
        Error::MissingChild(t) => {
            let mut s = String::from_str("Missing child «");
            let tag = t.display();
            s.append(tag.as_str());
            s.append("»");
            proof {
                assert(s@ =~= spec_error_message(e@));
            }
            s
        },
        Error::MultipleChildren(t) => {
            let mut s = String::from_str("Only one child «");
            let tag = t.display();
            s.append(tag.as_str());
            s.append("» is allowed");
            proof {
                assert(s@ =~= spec_error_message(e@));
            }
            s
        },
        Error::AttributeExceedsMaxLength(k, v, m) => {
            if is_node_value_key(k) {
                let mut s = String::from_str("Value «");
                s.append(v.as_str());
                s.append("» exceeds maximum length of ");
                let digits = u64_to_dec(*m as u64);
                s.append(digits.as_str());
                s.append(" characters");
                proof {
                    assert(s@ =~= spec_error_message(e@));
                }
                s
            } else {
                let mut s = String::from_str("Attribute «");
                s.append(k.as_str());
                s.append("» exceeds maximum length of ");
                let digits = u64_to_dec(*m as u64);
                s.append(digits.as_str());
                s.append(" characters");
                proof {
                    assert(s@ =~= spec_error_message(e@));
                }
                s
            }
        },
        Error::Custom(m) => {
            let s = m.clone();
            proof {
                assert(s@ =~= spec_error_message(e@));
            }
            s
        },
        Error::CustomWithExtraInfo(m, _) => {
            let s = m.clone();
            proof {
                assert(s@ =~= spec_error_message(e@));
            }
            s
        },
    }
}

/// Returns the disclosable extra explanation of a diagnostic, where one
/// exists.
pub fn error_extra_info(e: &Error) -> (r: Option<String>)
    ensures
        match spec_error_extra_info(e@) {
            Some(extra) => r is Some && r->0@ == extra,
            None => r is None,
        },
{
    match e {
        Error::CustomWithExtraInfo(_, extra) => Some(extra.clone()),
        _ => None,
    }
}


// ---------------------------------------------------------------------------
// Sentinel key uniformity
// ---------------------------------------------------------------------------
/// Whether `needle` occurs as a contiguous run inside `hay`.
pub open spec fn contains_run(hay: Seq<char>, needle: Seq<char>) -> bool {
    exists|i: int|
        0 <= i <= hay.len() - needle.len() && #[trigger] hay.subrange(i, i + needle.len())
            == needle
}

/// A run cannot start anywhere its first character does not match.
proof fn lemma_no_run_first_char(hay: Seq<char>, needle: Seq<char>)
    requires
        needle.len() > 0,
        forall|i: int| 0 <= i <= hay.len() - needle.len() ==> #[trigger] hay[i] != needle[0],
    ensures
        !contains_run(hay, needle),
{
    assert forall|i: int|
        0 <= i <= hay.len() - needle.len() implies #[trigger] hay.subrange(i, i + needle.len())
        != needle by {
        assert(hay.subrange(i, i + needle.len())[0] == hay[i]);
    }
}

/// A run across the joint of `a + b` would have to cover the character at
/// distance `d` from the end of `a`; if the needle holds neither that
/// character nor, as its first character, any of the last `d - 1`
/// characters of `a`, every run lies wholly inside `a` or wholly inside
/// `b`.
proof fn lemma_no_run_concat_marker(a: Seq<char>, b: Seq<char>, t: Seq<char>, d: int)
    requires
        t.len() > 0,
        1 <= d <= a.len(),
        !t.contains(a[a.len() - d]),
        forall|j: int| 1 <= j < d ==> t[0] != #[trigger] a[a.len() - j],
        !contains_run(a, t),
        !contains_run(b, t),
    ensures
        !contains_run(a + b, t),
{
    let h = a + b;
    assert forall|i: int| 0 <= i <= h.len() - t.len() implies #[trigger] h.subrange(i, i + t.len())
        != t by {
        if h.subrange(i, i + t.len()) == t {
            if i + t.len() <= a.len() {
                assert(a.subrange(i, i + t.len()) =~= h.subrange(i, i + t.len()));
            } else if i >= a.len() {
                assert(b.subrange(i - a.len(), i - a.len() + t.len()) =~= h.subrange(
                    i,
                    i + t.len(),
                ));
            } else {
                let j = a.len() - i;
                assert(1 <= j < t.len());
                if j >= d {
                    assert(t[j - d] == h.subrange(i, i + t.len())[j - d]);
                    assert(h[i + (j - d)] == a[a.len() - d]);
                    assert(t.contains(a[a.len() - d]));
                } else {
                    assert(t[0] == h.subrange(i, i + t.len())[0]);
                    assert(h[i] == a[a.len() - j]);
                }
            }
        }
    }
}

/// A run across the joint of `a + b` would have to hold the first
/// character of `b`; if the needle does not, every run lies wholly inside
/// `a` or wholly inside `b`.
proof fn lemma_no_run_concat_first(a: Seq<char>, b: Seq<char>, t: Seq<char>)
    requires
        t.len() > 0,
        b.len() > 0,
        !t.contains(b[0]),
        !contains_run(a, t),
        !contains_run(b, t),
    ensures
        !contains_run(a + b, t),
{
    let h = a + b;
    assert forall|i: int| 0 <= i <= h.len() - t.len() implies #[trigger] h.subrange(i, i + t.len())
        != t by {
        if h.subrange(i, i + t.len()) == t {
            if i + t.len() <= a.len() {
                assert(a.subrange(i, i + t.len()) =~= h.subrange(i, i + t.len()));
            } else if i >= a.len() {
                assert(b.subrange(i - a.len(), i - a.len() + t.len()) =~= h.subrange(
                    i,
                    i + t.len(),
                ));
            } else {
                assert(t[a.len() - i] == h.subrange(i, i + t.len())[a.len() - i]);
                assert(h[a.len() as int] == b[0]);
                assert(t.contains(b[0]));
            }
        }
    }
}

/// Every character of a decimal rendering is a digit.
proof fn lemma_dec_nat_digits(n: nat)
    ensures
        spec_dec_nat(n).len() >= 1,
        forall|i: int|
            0 <= i < spec_dec_nat(n).len() ==> 48 <= (#[trigger] spec_dec_nat(n)[i]) as u32
                <= 57,
    decreases n,
{
    if n >= 10 {
        lemma_dec_nat_digits(n / 10);
    }
}

/// The sentinel needle, concretely.
proof fn lemma_needle_chars()
    ensures
        spec_node_value_key() =~= seq!['n', 'o', 'd', 'e', ' ', 'v', 'a', 'l', 'u', 'e'],
{
    reveal_strlit("node value");
}

/// The characters the proofs below rely on never occurring in the needle.
proof fn lemma_needle_avoids()
    ensures
        !spec_node_value_key().contains('«'),
        !spec_node_value_key().contains('»'),
        forall|c: char| 48 <= c as u32 <= 57 ==> !spec_node_value_key().contains(c),
{
    lemma_needle_chars();
    let t = spec_node_value_key();
    assert forall|c: char| 48 <= c as u32 <= 57 implies !t.contains(c) by {
        assert forall|i: int| 0 <= i < t.len() implies t[i] != c by {
            assert((t[i] as u32) < 48 || (t[i] as u32) > 57);
        }
    }
    assert forall|i: int| 0 <= i < t.len() implies t[i] != '«' by {}
    assert forall|i: int| 0 <= i < t.len() implies t[i] != '»' by {}
}

/// Whether a diagnostic carries the sentinel attribute key.
pub open spec fn sentinel_keyed(e: ErrorS) -> bool {
    match e {
        ErrorS::MissingAttribute(k) => k == spec_node_value_key(),
        ErrorS::InvalidAttribute(k, _) => k == spec_node_value_key(),
        ErrorS::InvalidAttributeWithReason(k, _, _) => k == spec_node_value_key(),
        ErrorS::AttributeExceedsMaxLength(k, _, _) => k == spec_node_value_key(),
        _ => false,
    }
}

/// Whether the free payloads of a diagnostic avoid a given needle, and its
/// length limit (if any) is non-negative.
pub open spec fn payloads_avoid(e: ErrorS, t: Seq<char>) -> bool {
    match e {
        ErrorS::InvalidAttribute(_, v) => !contains_run(v, t),
        ErrorS::InvalidAttributeWithReason(_, v, r) => !contains_run(v, t) && !contains_run(r, t),
        ErrorS::AttributeExceedsMaxLength(_, v, m) => !contains_run(v, t) && m >= 0,
        _ => true,
    }
}

/// Sentinel key uniformity: a diagnostic that carries the sentinel key
/// renders without the sentinel text.  The one carve-out is unavoidable:
/// the rendered message quotes the offending value (and the decoder's
/// reason), so those payloads must themselves avoid the sentinel text.
pub proof fn lemma_sentinel_key_not_echoed(e: ErrorS)
    requires
        sentinel_keyed(e),
        payloads_avoid(e, spec_node_value_key()),
    ensures
        !contains_run(spec_error_message(e), spec_node_value_key()),
{
    let t = spec_node_value_key();
    lemma_needle_chars();
    lemma_needle_avoids();
    match e {
        ErrorS::MissingAttribute(_) => {
            let m = "Missing value"@;
            reveal_strlit("Missing value");
            lemma_no_run_first_char(m, t);
        },
        ErrorS::InvalidAttribute(_, v) => {
            let a = "Invalid value «"@;
            let close = "»"@;
            reveal_strlit("Invalid value «");
            reveal_strlit("»");
            assert forall|i: int| 0 <= i <= a.len() - t.len() implies #[trigger] a.subrange(
                i,
                i + t.len(),
            ) != t by {
                if i == 1 {
                    assert(a.subrange(1, 11)[1] == a[2]);
                } else {
                    assert(a.subrange(i, i + t.len())[0] == a[i]);
                }
            }
            assert(!contains_run(a, t));
            lemma_no_run_concat_marker(a, v, t, 1);
            assert(!contains_run(close, t));
            lemma_no_run_concat_first(a + v, close, t);
        },
        ErrorS::InvalidAttributeWithReason(_, v, r) => {
            let a = "Invalid value «"@;
            let mid = "»: "@;
            reveal_strlit("Invalid value «");
            reveal_strlit("»: ");
            assert forall|i: int| 0 <= i <= a.len() - t.len() implies #[trigger] a.subrange(
                i,
                i + t.len(),
            ) != t by {
                if i == 1 {
                    assert(a.subrange(1, 11)[1] == a[2]);
                } else {
                    assert(a.subrange(i, i + t.len())[0] == a[i]);
                }
            }
            assert(!contains_run(a, t));
            lemma_no_run_concat_marker(a, v, t, 1);
            assert(!contains_run(mid, t));
            lemma_no_run_concat_first(a + v, mid, t);
            let y = a + v + mid;
            assert(y[y.len() - 3] == '»');
            assert(y[y.len() - 2] == ':');
            assert(y[y.len() - 1] == ' ');
            lemma_no_run_concat_marker(y, r, t, 3);
        },
        ErrorS::AttributeExceedsMaxLength(_, v, m) => {
            let a = "Value «"@;
            let b = "» exceeds maximum length of "@;
            let tail = " characters"@;
            reveal_strlit("Value «");
            reveal_strlit("» exceeds maximum length of ");
            reveal_strlit(" characters");
            let digits = spec_dec_int(m);
            assert(digits == spec_dec_nat(m as nat));
            lemma_dec_nat_digits(m as nat);
            assert(!contains_run(a, t));
            lemma_no_run_concat_marker(a, v, t, 1);
            assert forall|i: int| 0 <= i <= b.len() - t.len() implies #[trigger] b[i] != t[0] by {}
            lemma_no_run_first_char(b, t);
            lemma_no_run_concat_first(a + v, b, t);
            assert forall|i: int| 0 <= i <= digits.len() - t.len() implies #[trigger] digits[i]
                != t[0] by {
                assert(48 <= (digits[i]) as u32 <= 57);
            }
            lemma_no_run_first_char(digits, t);
            assert(!t.contains(digits[0]));
            lemma_no_run_concat_first(a + v + b, digits, t);
            assert forall|i: int| 0 <= i <= tail.len() - t.len() implies #[trigger] tail[i]
                != t[0] by {}
            lemma_no_run_first_char(tail, t);
            let w = a + v + b + digits;
            assert(w[w.len() - 1] == digits[digits.len() - 1]);
            assert(!t.contains(w[w.len() - 1]));
            lemma_no_run_concat_marker(w, tail, t, 1);
            assert(spec_error_message(e) == w + tail);
        },
        _ => {},
    }
}

} // verus!
