//! JSON Pointer rendering with RFC 6902 escaping: inside a reference token
//! `~` is written `~0` and `/` is written `~1`.

use vstd::prelude::*;

verus! {

/// Escaping of a single character of a reference token.
pub open spec fn escape_char(c: char) -> Seq<char> {
    if c == '~' {
        seq!['~', '0']
    } else if c == '/' {
        seq!['~', '1']
    } else {
        seq![c]
    }
}

/// Escaping of a whole reference token.
pub open spec fn escape_seq(s: Seq<char>) -> Seq<char>
    decreases s.len(),
{
    if s.len() == 0 {
        Seq::empty()
    } else {
        escape_char(s[0]) + escape_seq(s.drop_first())
    }
}

/// The pointer string of a path: `/` followed by the escaped token, once per
/// segment; the empty path renders as the empty string (the whole document).
pub open spec fn pointer_seq(segs: Seq<Seq<char>>) -> Seq<char>
    decreases segs.len(),
{
    if segs.len() == 0 {
        Seq::empty()
    } else {
        seq!['/'] + escape_seq(segs[0]) + pointer_seq(segs.drop_first())
    }
}

/// Escapes one reference token.
pub fn escape(s: &str) -> (r: String)
    ensures
        r@ == escape_seq(s@),
{
    let n = s.unicode_len();
    let mut out = String::new();
    let mut i: usize = 0;
    proof {
        assert(s@.skip(0) =~= s@);
        assert(out@ + escape_seq(s@) =~= escape_seq(s@));
    }
    while i < n
        invariant
            n == s@.len(),
            i <= n,
            out@ + escape_seq(s@.skip(i as int)) == escape_seq(s@),
        decreases n - i,
    {
        let c = s.get_char(i);
        if c == '~' {
            proof {
                reveal_strlit("~0");
            }
            out.append("~0");
        } else if c == '/' {
            proof {
                reveal_strlit("~1");
            }
            out.append("~1");
        } else {
            let piece = s.substring_char(i, i + 1);
            proof {
                assert(piece@ =~= escape_char(s@[i as int]));
            }
            out.append(piece);
        }
        proof {
            assert(s@.skip(i as int).drop_first() =~= s@.skip(i as int + 1));
            assert(escape_seq(s@.skip(i as int)) == escape_char(s@[i as int]) + escape_seq(
                s@.skip(i as int + 1),
            ));
            assert(out@ + escape_seq(s@.skip(i as int + 1)) =~= escape_seq(s@));
        }
        i = i + 1;
    }
    proof {
        assert(s@.skip(n as int) =~= Seq::<char>::empty());
        assert(out@ =~= escape_seq(s@));
    }
    out
}

/// Renders a segment path as a JSON Pointer string, escaping each segment.
pub fn pointer_of(segs: &Vec<String>) -> (r: String)
    ensures
        r@ == pointer_seq(segs@.map_values(|s: String| s@)),
{
    let ghost m = segs@.map_values(|s: String| s@);
    let mut out = String::new();
    let mut i: usize = 0;
    proof {
        assert(m.skip(0) =~= m);
        assert(out@ + pointer_seq(m) =~= pointer_seq(m));
    }
    while i < segs.len()
        invariant
            m == segs@.map_values(|s: String| s@),
            i <= segs.len(),
            out@ + pointer_seq(m.skip(i as int)) == pointer_seq(m),
        decreases segs.len() - i,
    {
        proof {
            reveal_strlit("/");
        }
        out.append("/");
        let e = escape(segs[i].as_str());
        out.append(e.as_str());
        proof {
            assert(m.skip(i as int)[0] == m[i as int]);
            assert(m.skip(i as int).drop_first() =~= m.skip(i as int + 1));
            assert(pointer_seq(m.skip(i as int)) == seq!['/'] + escape_seq(m[i as int])
                + pointer_seq(m.skip(i as int + 1)));
            assert(out@ + pointer_seq(m.skip(i as int + 1)) =~= pointer_seq(m));
        }
        i = i + 1;
    }
    proof {
        assert(m.skip(segs@.len() as int) =~= Seq::<Seq<char>>::empty());
        assert(out@ =~= pointer_seq(m));
    }
    out
}

} // verus!
