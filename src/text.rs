//! Text building blocks: decimal rendering, joining with a separator and
//! splitting on the double-underscore marker.
use vstd::prelude::*;
use vstd::string::*;

verus! {

/// The character of a decimal digit.
pub open spec fn digit_char(d: nat) -> char {
    if d == 0 { '0' }
    else if d == 1 { '1' }
    else if d == 2 { '2' }
    else if d == 3 { '3' }
    else if d == 4 { '4' }
    else if d == 5 { '5' }
    else if d == 6 { '6' }
    else if d == 7 { '7' }
    else if d == 8 { '8' }
    else { '9' }
}

/// Decimal text of a natural number, without leading zeros.
pub open spec fn decimal_of(n: nat) -> Seq<char>
    decreases n,
{
    if n < 10 {
        seq![digit_char(n)]
    } else {
        decimal_of(n / 10) + seq![digit_char(n % 10)]
    }
}

/// The parts joined with `sep` between each two neighbours.
pub open spec fn join(parts: Seq<Seq<char>>, sep: Seq<char>) -> Seq<char>
    decreases parts.len(),
{
    if parts.len() == 0 {
        Seq::empty()
    } else if parts.len() == 1 {
        parts[0]
    } else {
        join(parts.drop_last(), sep) + sep + parts.last()
    }
}

/// Whether `s` holds the marker `__` at position `i`.
pub open spec fn marker_at(s: Seq<char>, i: int) -> bool {
    0 <= i && i + 1 < s.len() && s[i] == '_' && s[i + 1] == '_'
}

/// Splits `s` on each `__`, read from the left without overlap; `cur` is the
/// part gathered so far.
pub open spec fn split_from(s: Seq<char>, cur: Seq<char>) -> Seq<Seq<char>>
    decreases s.len(),
{
    if s.len() == 0 {
        seq![cur]
    } else if marker_at(s, 0) {
        seq![cur] + split_from(s.skip(2), Seq::empty())
    } else {
        split_from(s.skip(1), cur.push(s[0]))
    }
}

/// The parts of `s` between the markers `__`.
pub open spec fn split_marker(s: Seq<char>) -> Seq<Seq<char>> {
    split_from(s, Seq::empty())
}

/// The text of one decimal digit.
fn digit_str(d: usize) -> (r: &'static str)
    requires
        d < 10,
    ensures
        r@ == seq![digit_char(d as nat)],
{
    proof {
        reveal_strlit("0");
        reveal_strlit("1");
        reveal_strlit("2");
        reveal_strlit("3");
        reveal_strlit("4");
        reveal_strlit("5");
        reveal_strlit("6");
        reveal_strlit("7");
        reveal_strlit("8");
        reveal_strlit("9");
    }
    let r = if d == 0 { "0" }
    else if d == 1 { "1" }
    else if d == 2 { "2" }
    else if d == 3 { "3" }
    else if d == 4 { "4" }
    else if d == 5 { "5" }
    else if d == 6 { "6" }
    else if d == 7 { "7" }
    else if d == 8 { "8" }
    else { "9" };
    assert(r@ =~= seq![digit_char(d as nat)]);
    r
}

/// Decimal text of `n`.
pub fn decimal(n: usize) -> (r: String)
    ensures
        r@ == decimal_of(n as nat),
    decreases n,
{
    if n < 10 {
        String::from_str(digit_str(n))
    } else {
        let mut s = decimal(n / 10);
        s.append(digit_str(n % 10));
        s
    }
}

/// Splits `s` on each `__`, as `str::split` does with that pattern.
pub fn split_on_marker(s: &str) -> (r: Vec<String>)
    ensures
        r@.map_values(|p: String| p@) == split_marker(s@),
{
    let n = s.unicode_len();
    let mut parts: Vec<String> = Vec::new();
    let mut cur = String::new();
    let mut i: usize = 0;
    proof {
        assert(s@.skip(0) =~= s@);
        assert(cur@ =~= Seq::<char>::empty());
    }
    while i < n
        invariant
            n == s@.len(),
            i <= n,
            parts@.map_values(|p: String| p@) + split_from(s@.skip(i as int), cur@)
                == split_marker(s@),
        decreases n - i,
    {
        let c = s.get_char(i);
        let ghost rest = s@.skip(i as int);
        if i + 1 < n && c == '_' && s.get_char(i + 1) == '_' {
            proof {
                assert(marker_at(rest, 0));
                assert(rest.skip(2) =~= s@.skip(i + 2));
                assert(parts@.push(cur).map_values(|p: String| p@)
                    =~= parts@.map_values(|p: String| p@) + seq![cur@]);
            }
            parts.push(cur);
            cur = String::new();
            proof {
                assert(cur@ =~= Seq::<char>::empty());
            }
            i = i + 2;
        } else {
            proof {
                assert(!marker_at(rest, 0));
                assert(rest.skip(1) =~= s@.skip(i + 1));
                assert(rest[0] == c);
            }
            let ghost old_cur = cur@;
            cur.append(s.substring_char(i, i + 1));
            proof {
                assert(s@.subrange(i as int, i + 1) =~= seq![c]);
                assert(cur@ =~= old_cur.push(c));
            }
            i = i + 1;
        }
    }
    proof {
        assert(s@.skip(n as int) =~= Seq::<char>::empty());
        assert(parts@.push(cur).map_values(|p: String| p@)
            =~= parts@.map_values(|p: String| p@) + seq![cur@]);
    }
    parts.push(cur);
    parts
}

} // verus!
