//! Small verified text helpers shared across the crate.

use vstd::prelude::*;

verus! {

/// The view of an optional string.
pub open spec fn view_opt(o: Option<String>) -> Option<Seq<char>> {
    match o {
        Some(s) => Some(s@),
        None => None,
    }
}

/// The views of a list of strings.
pub open spec fn views_of(v: Seq<String>) -> Seq<Seq<char>> {
    v.map_values(|s: String| s@)
}

/// Character-wise string equality.
pub fn str_eq(a: &str, b: &str) -> (r: bool)
    ensures
        r == (a@ == b@),
{
    let n: usize = a.unicode_len();
    let m: usize = b.unicode_len();
    if n != m {
        proof {
            if a@ == b@ {
                assert(a@.len() == b@.len());
            }
        }
        return false;
    }
    let mut i: usize = 0;
    while i < n
        invariant
            i <= n,
            n == a@.len(),
            n == b@.len(),
            forall|j: int| 0 <= j < i ==> a@[j] == b@[j],
        decreases n - i,
    {
        if a.get_char(i) != b.get_char(i) {
            proof {
                if a@ == b@ {
                    assert(a@[i as int] == b@[i as int]);
                }
            }
            return false;
        }
        i = i + 1;
    }
    proof {
        assert(a@ =~= b@);
    }
    true
}

/// A character folded to ASCII lower case.
pub open spec fn lower_char(c: char) -> char {
    if 65 <= c as int <= 90 {
        ((c as int + 32) as u8) as char
    } else {
        c
    }
}

/// A sequence folded to ASCII lower case.
pub open spec fn lower_seq(s: Seq<char>) -> Seq<char> {
    s.map_values(|c: char| lower_char(c))
}

/// ASCII-case-insensitive equality of character sequences.
pub open spec fn eq_ignore_ascii_case(a: Seq<char>, b: Seq<char>) -> bool {
    lower_seq(a) == lower_seq(b)
}

/// Folds one character to ASCII lower case.
fn to_lower_char(c: char) -> (r: char)
    ensures
        r == lower_char(c),
{
    let u = c as u32;
    if 65 <= u && u <= 90 {
        let l = (u + 32) as u8;
        proof {
            assert(c as int == u as int);
            assert(l as int == c as int + 32);
        }
        l as char
    } else {
        proof {
            assert(c as int == u as int);
        }
        c
    }
}

/// Character-wise ASCII-case-insensitive string equality.
pub fn str_eq_ignore_ascii_case(a: &str, b: &str) -> (r: bool)
    ensures
        r == eq_ignore_ascii_case(a@, b@),
{
    let n: usize = a.unicode_len();
    let m: usize = b.unicode_len();
    if n != m {
        proof {
            if lower_seq(a@) == lower_seq(b@) {
                assert(lower_seq(a@).len() == lower_seq(b@).len());
            }
        }
        return false;
    }
    let mut i: usize = 0;
    while i < n
        invariant
            i <= n,
            n == a@.len(),
            n == b@.len(),
            forall|j: int| 0 <= j < i ==> lower_char(a@[j]) == lower_char(b@[j]),
        decreases n - i,
    {
        if to_lower_char(a.get_char(i)) != to_lower_char(b.get_char(i)) {
            proof {
                if lower_seq(a@) == lower_seq(b@) {
                    assert(lower_seq(a@)[i as int] == lower_seq(b@)[i as int]);
                    assert(lower_seq(a@)[i as int] == lower_char(a@[i as int]));
                    assert(lower_seq(b@)[i as int] == lower_char(b@[i as int]));
                }
            }
            return false;
        }
        i = i + 1;
    }
    proof {
        assert(lower_seq(a@) =~= lower_seq(b@));
    }
    true
}

/// The input split at `sep`, keeping empty pieces; the empty input yields
/// one empty piece.
pub open spec fn split_by_spec(s: Seq<char>, sep: char) -> Seq<Seq<char>>
    decreases s.len(),
{
    if s.len() == 0 {
        seq![Seq::<char>::empty()]
    } else if s.last() == sep {
        split_by_spec(s.drop_last(), sep).push(Seq::<char>::empty())
    } else {
        let rest = split_by_spec(s.drop_last(), sep);
        rest.update(rest.len() - 1, rest.last().push(s.last()))
    }
}

/// Splits a string at a separator character, keeping empty pieces.
pub fn split_by(s: &str, sep: char) -> (pieces: Vec<String>)
    ensures
        views_of(pieces@) == split_by_spec(s@, sep),
{
    let n: usize = s.unicode_len();
    let mut pieces: Vec<String> = Vec::new();
    let mut cur: String = String::new();
    let mut i: usize = 0;
    proof {
        assert(views_of(pieces@).push(cur@) =~~= split_by_spec(s@.take(0), sep));
    }
    while i < n
        invariant
            i <= n,
            n == s@.len(),
            views_of(pieces@).push(cur@) == split_by_spec(s@.take(i as int), sep),
        decreases n - i,
    {
        let ghost prev_pieces = pieces@;
        let ghost prev_cur = cur@;
        let c = s.get_char(i);
        if c == sep {
            pieces.push(cur);
            cur = String::new();
        } else {
            let piece = s.substring_char(i, i + 1);
            cur.append(piece);
            proof {
                assert(cur@ =~= prev_cur.push(s@[i as int]));
            }
        }
        proof {
            let t = s@.take(i + 1);
            assert(t.drop_last() =~= s@.take(i as int));
            assert(t.last() == s@[i as int]);
            let rest = split_by_spec(s@.take(i as int), sep);
            if s@[i as int] == sep {
                assert(views_of(pieces@) =~~= views_of(prev_pieces).push(prev_cur));
                assert(views_of(pieces@).push(cur@) =~~= rest.push(Seq::<char>::empty()));
                assert(split_by_spec(t, sep) == rest.push(Seq::<char>::empty()));
            } else {
                assert(rest == views_of(prev_pieces).push(prev_cur));
                assert(rest.len() == views_of(prev_pieces).len() + 1);
                assert(rest.last() == prev_cur);
                assert(split_by_spec(t, sep) == rest.update(
                    rest.len() - 1,
                    rest.last().push(s@[i as int]),
                ));
                assert(views_of(pieces@).push(cur@) =~~= rest.update(
                    rest.len() - 1,
                    rest.last().push(s@[i as int]),
                ));
            }
        }
        i = i + 1;
    }
    proof {
        assert(s@.take(n as int) =~= s@);
    }
    pieces.push(cur);
    proof {
        assert(views_of(pieces@) =~~= split_by_spec(s@, sep));
    }
    pieces
}

} // verus!
