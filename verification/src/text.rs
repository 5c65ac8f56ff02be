//! Verified text utilities for the report renderer: decimal formatting,
//! ANSI emphasis, and replacement of every occurrence of a substring.

use vstd::prelude::*;
use vstd::string::StrSliceExecFns;
use vstd::string::StringExecFns;

verus! {

/// The character that writes a decimal digit `d`.
pub open spec fn digit_char(d: nat) -> char {
    if d == 0 {
        '0'
    } else if d == 1 {
        '1'
    } else if d == 2 {
        '2'
    } else if d == 3 {
        '3'
    } else if d == 4 {
        '4'
    } else if d == 5 {
        '5'
    } else if d == 6 {
        '6'
    } else if d == 7 {
        '7'
    } else if d == 8 {
        '8'
    } else {
        '9'
    }
}

/// The usual decimal representation of `n`, without a sign and without
/// leading zeros (except for `n == 0` itself).
pub open spec fn dec_rep(n: nat) -> Seq<char>
    decreases n,
{
    if n < 10 {
        seq![digit_char(n)]
    } else {
        dec_rep(n / 10).push(digit_char(n % 10))
    }
}

/// A one-character string for the decimal digit `d`.
fn digit_str(d: usize) -> (r: &'static str)
    requires
        d < 10,
    ensures
        r@ == seq![digit_char(d as nat)],
{
    proof {
        reveal_strlit("0");
        reveal_strlit("1");
        reveal_strlit("2");
        reveal_strlit("3");
        reveal_strlit("4");
        reveal_strlit("5");
        reveal_strlit("6");
        reveal_strlit("7");
        reveal_strlit("8");
        reveal_strlit("9");
    }
    let r: &'static str = if d == 0 {
        "0"
    } else if d == 1 {
        "1"
    } else if d == 2 {
        "2"
    } else if d == 3 {
        "3"
    } else if d == 4 {
        "4"
    } else if d == 5 {
        "5"
    } else if d == 6 {
        "6"
    } else if d == 7 {
        "7"
    } else if d == 8 {
        "8"
    } else {
        "9"
    };
    proof {
        assert(r@ =~= seq![digit_char(d as nat)]);
    }
    r
}

/// Renders `n` in decimal.
pub fn usize_to_string(n: usize) -> (r: String)
    ensures
        r@ == dec_rep(n as nat),
    decreases n,
{
    if n < 10 {
        digit_str(n).to_owned()
    } else {
        let mut r = usize_to_string(n / 10);
        r.append(digit_str(n % 10));
        proof {
            assert(r@ =~= dec_rep(n as nat));
        }
        r
    }
}

/// The ANSI sequence that turns bold green emphasis on.
pub open spec fn emph_prefix() -> Seq<char> {
    "\u{1b}[1;32m"@
}

/// The ANSI sequence that resets styling.
pub open spec fn emph_suffix() -> Seq<char> {
    "\u{1b}[0m"@
}

/// `s` wrapped in the emphasis styling.
pub open spec fn emphasized(s: Seq<char>) -> Seq<char> {
    emph_prefix() + s + emph_suffix()
}

/// Wraps `s` in the emphasis styling.
pub fn emphasize(s: &str) -> (r: String)
    ensures
        r@ == emphasized(s@),
{
    let mut r: String = "\u{1b}[1;32m".to_owned();
    r.append(s);
    r.append("\u{1b}[0m");
    proof {
        assert(r@ =~= emphasized(s@));
    }
    r
}

/// `h` with every occurrence of `n` replaced by `rep`, scanning left to
/// right and never re-examining replaced text, as `str::replace` does.
/// An empty `n` matches before every character and at the end.
pub open spec fn replace_all_spec(h: Seq<char>, n: Seq<char>, rep: Seq<char>) -> Seq<char>
    decreases h.len(),
{
    if n.len() == 0 {
        if h.len() == 0 {
            rep
        } else {
            rep + seq![h[0]] + replace_all_spec(h.skip(1), n, rep)
        }
    } else if h.len() < n.len() {
        h
    } else if h.subrange(0, n.len() as int) == n {
        rep + replace_all_spec(h.skip(n.len() as int), n, rep)
    } else {
        seq![h[0]] + replace_all_spec(h.skip(1), n, rep)
    }
}

/// Whether `n` occurs in `h` starting at character position `i`.
fn occurs_at(h: &str, i: usize, n: &str) -> (r: bool)
    requires
        i + n@.len() <= h@.len(),
    ensures
        r <==> h@.subrange(i as int, i + n@.len()) == n@,
{
    let h_total = h.unicode_len();
    let n_len = n.unicode_len();
    let mut j: usize = 0;
    while j < n_len
        invariant
            i + n_len <= h_total,
            h_total == h@.len(),
            n_len == n@.len(),
            j <= n_len,
            forall|k: int| 0 <= k < j ==> h@[i + k] == n@[k],
        decreases n_len - j,
    {
        if h.get_char(i + j) != n.get_char(j) {
            assert(h@.subrange(i as int, i + n@.len())[j as int] != n@[j as int]);
            return false;
        }
        j += 1;
    }
    proof {
        assert(h@.subrange(i as int, i + n@.len()) =~= n@);
    }
    true
}

/// Replaces every occurrence of `n` in `h` by `rep`, scanning left to
/// right over non-overlapping occurrences.
pub fn replace_all(h: &str, n: &str, rep: &str) -> (r: String)
    ensures
        r@ == replace_all_spec(h@, n@, rep@),
{
    let h_len = h.unicode_len();
    let n_len = n.unicode_len();
    let mut r = String::new();
    if n_len == 0 {
        let mut i: usize = 0;
        proof {
            assert(h@.skip(0) =~= h@);
        }
        while i < h_len
            invariant
                h_len == h@.len(),
                n@.len() == 0,
                i <= h_len,
                replace_all_spec(h@, n@, rep@) == r@ + replace_all_spec(
                    h@.skip(i as int),
                    n@,
                    rep@,
                ),
            decreases h_len - i,
        {
            proof {
                assert(h@.skip(i as int)[0] == h@[i as int]);
                assert(h@.skip(i as int).skip(1) =~= h@.skip(i + 1));
            }
            r.append(rep);
            let piece = h.substring_char(i, i + 1);
            proof {
                assert(piece@ =~= seq![h@[i as int]]);
            }
            r.append(piece);
            i += 1;
        }
        proof {
            assert(h@.skip(h_len as int) =~= Seq::<char>::empty());
        }
        r.append(rep);
        return r;
    }
    let mut i: usize = 0;
    proof {
        assert(h@.skip(0) =~= h@);
    }
    while i < h_len
        invariant
            h_len == h@.len(),
            n_len == n@.len(),
            n_len > 0,
            i <= h_len,
            replace_all_spec(h@, n@, rep@) == r@ + replace_all_spec(h@.skip(i as int), n@, rep@),
        decreases h_len - i,
    {
        let ghost tail = h@.skip(i as int);
        if n_len <= h_len - i && occurs_at(h, i, n) {
            proof {
                assert(tail.subrange(0, n@.len() as int) =~= h@.subrange(i as int, i + n@.len()));
                assert(tail.skip(n@.len() as int) =~= h@.skip(i + n@.len()));
            }
            r.append(rep);
            i += n_len;
        } else {
            proof {
                if tail.len() >= n@.len() {
                    assert(tail.subrange(0, n@.len() as int) =~= h@.subrange(
                        i as int,
                        i + n@.len(),
                    ));
                }
                assert(tail[0] == h@[i as int]);
                assert(tail.skip(1) =~= h@.skip(i + 1));
                if tail.len() < n@.len() {
                    // the remainder is shorter than `n`: the spec keeps it
                    // whole, which is the same as copying it one character
                    // at a time
                    assert(replace_all_spec(tail, n@, rep@) == tail);
                    assert(replace_all_spec(tail.skip(1), n@, rep@) == tail.skip(1));
                    assert(tail =~= seq![tail[0]] + tail.skip(1));
                }
            }
            let piece = h.substring_char(i, i + 1);
            proof {
                assert(piece@ =~= seq![h@[i as int]]);
            }
            r.append(piece);
            i += 1;
        }
    }
    proof {
        assert(h@.skip(h_len as int) =~= Seq::<char>::empty());
    }
    r
}

} // verus!
