//! Small operations on texts.

use vstd::prelude::*;
use vstd::string::StrSliceExecFns;
use vstd::string::StringExecFns;
use crate::api::texts_view;

verus! {

/// `parts` written one after the other with `separator` between each two.
pub open spec fn joined(parts: Seq<Seq<char>>, separator: Seq<char>) -> Seq<char>
    decreases parts.len(),
{
    if parts.len() == 0 {
        Seq::empty()
    } else if parts.len() == 1 {
        parts[0]
    } else {
        joined(parts.drop_last(), separator) + separator + parts.last()
    }
}

/// `str`'s `==`: two texts are equal exactly when they hold the same characters.
#[verifier::external_body]
pub(crate) fn same_text(a: &str, b: &str) -> (same: bool)
    ensures
        same == (a@ == b@),
{
    a == b
}

/// `parts` written one after the other with `separator` between each two.
pub fn join(parts: &Vec<String>, separator: &str) -> (whole: String)
    ensures
        whole@ == joined(texts_view(parts@), separator@),
{
    let ghost views = texts_view(parts@);
    let mut whole = String::new();
    let mut i: usize = 0;
    assert(views.take(0) =~= Seq::empty());
    while i < parts.len()
        invariant
            i <= parts@.len(),
            views == texts_view(parts@),
            whole@ == joined(views.take(i as int), separator@),
        decreases parts@.len() - i,
    {
        proof {
            assert(views.take(i + 1).drop_last() =~= views.take(i as int));
            assert(views.take(i + 1).last() == parts@[i as int]@);
            if i == 0 {
                assert(whole@ + parts@[i as int]@ =~= parts@[i as int]@);
            }
        }
        if i > 0 {
            whole.append(separator);
        }
        whole.append(parts[i].as_str());
        i = i + 1;
    }
    assert(views.take(parts@.len() as int) =~= views);
    whole
}

/// Whether `a` comes before `b` when texts are ordered character by character
/// by the place of the characters in the code charts, a text coming before
/// every longer text that starts with it.
pub open spec fn lexically_before(a: Seq<char>, b: Seq<char>) -> bool
    decreases a.len(),
{
    if b.len() == 0 {
        false
    } else if a.len() == 0 {
        true
    } else if (a[0] as u32) < (b[0] as u32) {
        true
    } else if (a[0] as u32) > (b[0] as u32) {
        false
    } else {
        lexically_before(a.drop_first(), b.drop_first())
    }
}

/// Of three texts of which the second does not come before the first, and
/// the third not before the second, the third does not come before the first.
pub proof fn lemma_lexical_order(a: Seq<char>, b: Seq<char>, c: Seq<char>)
    requires
        !lexically_before(b, a),
        !lexically_before(c, b),
    ensures
        !lexically_before(c, a),
    decreases a.len(),
{
    if a.len() > 0 && b.len() > 0 && c.len() > 0 {
        if (a[0] as u32) == (b[0] as u32) && (b[0] as u32) == (c[0] as u32) {
            lemma_lexical_order(a.drop_first(), b.drop_first(), c.drop_first());
        }
    }
}

/// Of two texts, not each comes before the other.
pub proof fn lemma_lexical_one_way(a: Seq<char>, b: Seq<char>)
    requires
        lexically_before(a, b),
    ensures
        !lexically_before(b, a),
    decreases a.len(),
{
    if a.len() > 0 && b.len() > 0 {
        if (a[0] as u32) == (b[0] as u32) {
            lemma_lexical_one_way(a.drop_first(), b.drop_first());
        }
    }
}

/// `str`'s `<`: texts are ordered lexicographically by their bytes, which
/// orders them by the places of their characters in the code charts.
#[verifier::external_body]
pub(crate) fn text_before(a: &str, b: &str) -> (before: bool)
    ensures
        before == lexically_before(a@, b@),
{
    a < b
}

/// How many times `piece` is written one after the other.
pub open spec fn repeated(piece: Seq<char>, times: nat) -> Seq<char>
    decreases times,
{
    if times == 0 {
        Seq::empty()
    } else {
        repeated(piece, (times - 1) as nat) + piece
    }
}

/// Appends `piece` to `text` the given number of times.
pub fn append_repeated(text: &mut String, piece: &str, times: usize)
    ensures
        final(text)@ == old(text)@ + repeated(piece@, times as nat),
{
    let mut i: usize = 0;
    assert(text@ =~= old(text)@ + repeated(piece@, 0));
    while i < times
        invariant
            i <= times,
            text@ == old(text)@ + repeated(piece@, i as nat),
        decreases times - i,
    {
        text.append(piece);
        assert(text@ =~= old(text)@ + repeated(piece@, (i + 1) as nat));
        i = i + 1;
    }
}

/// What scanning the first `n` characters of a text for `::` has found: the
/// number of times it occurred, no occurrence sharing a colon with another,
/// and whether the last character seen is a colon that may begin the next.
pub open spec fn scanned(text: Seq<char>, n: int) -> (nat, bool)
    decreases n,
{
    if n <= 0 {
        (0, false)
    } else {
        let (found, open) = scanned(text, n - 1);
        if text[n - 1] == ':' {
            if open {
                ((found + 1) as nat, false)
            } else {
                (found, true)
            }
        } else {
            (found, false)
        }
    }
}

/// The number of times `::` occurs in a text, no occurrence sharing a colon
/// with another.
pub open spec fn separators(text: Seq<char>) -> nat {
    scanned(text, text.len() as int).0
}

proof fn lemma_scanned_bound(text: Seq<char>, n: int)
    requires
        0 <= n,
    ensures
        2 * scanned(text, n).0 + (if scanned(text, n).1 {
            1int
        } else {
            0int
        }) <= n,
    decreases n,
{
    if n > 0 {
        lemma_scanned_bound(text, n - 1);
    }
}

/// The number of times `::` occurs in `text`, no occurrence sharing a colon
/// with another.
pub fn count_separators(text: &str) -> (found: usize)
    ensures
        found == separators(text@),
        found < usize::MAX,
{
    broadcast use vstd::string::group_string_axioms;

    let length = text.unicode_len();
    let mut found: usize = 0;
    let mut open = false;
    for c in it: text.chars()
        invariant
            it.seq() == text@,
            text@.len() == length,
            (found as nat, open) == scanned(text@, it.index()),
    {
        proof {
            lemma_scanned_bound(text@, it.index());
        }
        if c == ':' {
            if open {
                found = found + 1;
                open = false;
            } else {
                open = true;
            }
        } else {
            open = false;
        }
    }
    proof {
        lemma_scanned_bound(text@, text@.len() as int);
    }
    found
}

} // verus!
