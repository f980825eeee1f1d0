use vstd::prelude::*;
use vstd::string::*;
use crate::nemesis::names;

verus! {

/// Whether a character has the Unicode White_Space property, which is what
/// `char::is_whitespace` tests.
pub open spec fn is_white_space(c: char) -> bool {
    let u = c as u32;
    ||| 0x9 <= u <= 0xd
    ||| u == 0x20
    ||| u == 0x85
    ||| u == 0xa0
    ||| u == 0x1680
    ||| 0x2000 <= u <= 0x200a
    ||| u == 0x2028
    ||| u == 0x2029
    ||| u == 0x202f
    ||| u == 0x205f
    ||| u == 0x3000
}

/// Whether a character has the Unicode White_Space property.
pub fn white_space(c: char) -> (b: bool)
    ensures
        b == is_white_space(c),
{
    let u = c as u32;
    (0x9 <= u && u <= 0xd) || u == 0x20 || u == 0x85 || u == 0xa0 || u == 0x1680 || (0x2000 <= u && u <= 0x200a)
        || u == 0x2028 || u == 0x2029 || u == 0x202f || u == 0x205f || u == 0x3000
}

/// `s` without its leading white space.
pub open spec fn trim_start(s: Seq<char>) -> Seq<char>
    decreases s.len(),
{
    if s.len() > 0 && is_white_space(s[0]) {
        trim_start(s.drop_first())
    } else {
        s
    }
}

/// `s` without its trailing white space.
pub open spec fn trim_end(s: Seq<char>) -> Seq<char>
    decreases s.len(),
{
    if s.len() > 0 && is_white_space(s.last()) {
        trim_end(s.drop_last())
    } else {
        s
    }
}

/// `s` without leading and trailing white space.
pub open spec fn trim(s: Seq<char>) -> Seq<char> {
    trim_end(trim_start(s))
}

/// `s` without leading and trailing white space.
pub fn trimmed(s: &str) -> (r: String)
    ensures
        r@ == trim(s@),
{
    let n = s.unicode_len();
    assert(s@.subrange(0, n as int) =~= s@);
    let mut lo: usize = 0;
    while lo < n && white_space(s.get_char(lo))
        invariant
            n == s@.len(),
            lo <= n,
            trim_start(s@) == trim_start(s@.subrange(lo as int, n as int)),
        decreases n - lo,
    {
        assert(s@.subrange(lo as int, n as int).drop_first() =~= s@.subrange(lo + 1, n as int));
        lo = lo + 1;
    }
    let mut hi: usize = n;
    while hi > lo && white_space(s.get_char(hi - 1))
        invariant
            n == s@.len(),
            lo <= hi <= n,
            trim_start(s@) == s@.subrange(lo as int, n as int),
            trim_end(s@.subrange(lo as int, n as int)) == trim_end(s@.subrange(lo as int, hi as int)),
        decreases hi - lo,
    {
        assert(s@.subrange(lo as int, hi as int).drop_last() =~= s@.subrange(lo as int, hi - 1));
        hi = hi - 1;
    }
    String::from_str(s.substring_char(lo, hi))
}

/// The pieces of `s` between commas, where `cur` is the piece read so far.
pub open spec fn split_from(s: Seq<char>, cur: Seq<char>) -> Seq<Seq<char>>
    decreases s.len(),
{
    if s.len() == 0 {
        seq![cur]
    } else if s[0] == ',' {
        seq![cur] + split_from(s.drop_first(), Seq::empty())
    } else {
        split_from(s.drop_first(), cur.push(s[0]))
    }
}

/// The pieces of `s` between commas, as `str::split(',')` gives them: one more
/// piece than there are commas.
pub open spec fn split_commas(s: Seq<char>) -> Seq<Seq<char>> {
    split_from(s, Seq::empty())
}

/// The trimmed pieces of a comma-separated list.
pub open spec fn list_items(s: Seq<char>) -> Seq<Seq<char>> {
    split_commas(s).map_values(|p: Seq<char>| trim(p))
}

/// The pieces of a comma-separated list, each without surrounding white
/// space.
pub fn split_list(s: &str) -> (r: Vec<String>)
    ensures
        names(r@) == list_items(s@),
{
    let n = s.unicode_len();
    let ghost ss = s@;
    let ghost mut raw: Seq<Seq<char>> = Seq::empty();
    let mut out: Vec<String> = Vec::new();
    let mut start: usize = 0;
    let mut i: usize = 0;
    assert(ss.subrange(0, n as int) =~= ss);
    assert(ss.subrange(0, 0) =~= Seq::<char>::empty());
    assert(raw + split_commas(ss) =~= split_commas(ss));
    while i < n
        invariant
            n == ss.len(),
            ss == s@,
            start <= i <= n,
            split_commas(ss) == raw + split_from(ss.subrange(i as int, n as int), ss.subrange(start as int, i as int)),
            names(out@) == raw.map_values(|p: Seq<char>| trim(p)),
        decreases n - i,
    {
        let ghost rest = ss.subrange(i as int, n as int);
        assert(rest.drop_first() =~= ss.subrange(i + 1, n as int));
        assert(rest[0] == ss[i as int]);
        if s.get_char(i) == ',' {
            let piece = s.substring_char(start, i);
            let t = trimmed(piece);
            proof {
                let old_raw = raw;
                raw = raw.push(piece@);
                assert(ss.subrange(i + 1, i + 1) =~= Seq::<char>::empty());
                assert(split_from(rest, piece@) == seq![piece@] + split_from(rest.drop_first(), Seq::empty()));
                assert(raw + split_from(ss.subrange(i + 1, n as int), ss.subrange(i + 1, i + 1))
                    =~= old_raw + (seq![piece@] + split_from(ss.subrange(i + 1, n as int), ss.subrange(i + 1, i + 1))));
            }
            let ghost out_before = out@;
            out.push(t);
            proof {
                assert(names(out@) =~= names(out_before).push(t@));
                assert(raw.map_values(|p: Seq<char>| trim(p)) =~= raw.drop_last().map_values(|p: Seq<char>| trim(p)).push(trim(piece@)));
            }
            start = i + 1;
        } else {
            assert(ss.subrange(start as int, i as int).push(ss[i as int]) =~= ss.subrange(start as int, i + 1));
        }
        i = i + 1;
    }
    let piece = s.substring_char(start, n);
    let t = trimmed(piece);
    proof {
        assert(ss.subrange(n as int, n as int) =~= Seq::<char>::empty());
        raw = raw.push(piece@);
    }
    let ghost out_before = out@;
    out.push(t);
    proof {
        assert(names(out@) =~= names(out_before).push(t@));
        assert(raw.map_values(|p: Seq<char>| trim(p)) =~= raw.drop_last().map_values(|p: Seq<char>| trim(p)).push(trim(piece@)));
        assert(split_commas(ss) =~= raw);
    }
    out
}

/// The non-empty trimmed pieces of a comma-separated list.
pub open spec fn nonempty_list_items(s: Seq<char>) -> Seq<Seq<char>> {
    list_items(s).filter(|p: Seq<char>| p.len() > 0)
}

/// The pieces of a comma-separated list, each without surrounding white
/// space, leaving out the pieces that are then empty.
pub fn split_list_nonempty(s: &str) -> (r: Vec<String>)
    ensures
        names(r@) == nonempty_list_items(s@),
{
    let all = split_list(s);
    let ghost items = names(all@);
    let mut out: Vec<String> = Vec::new();
    let n = all.len();
    let mut i: usize = 0;
    proof {
        reveal(Seq::filter);
    }
    while i < n
        invariant
            n == all@.len(),
            items == names(all@),
            items == list_items(s@),
            i <= n,
            names(out@) == items.take(i as int).filter(|p: Seq<char>| p.len() > 0),
        decreases n - i,
    {
        proof {
            reveal(Seq::filter);
            assert(items.take(i + 1).drop_last() =~= items.take(i as int));
            assert(items.take(i + 1).last() == all@[i as int]@);
        }
        let ghost out_before = out@;
        if all[i].as_str().unicode_len() > 0 {
            let c = all[i].clone();
            out.push(c);
            assert(names(out@) =~= names(out_before).push(c@));
        }
        assert(names(out@) =~= items.take(i + 1).filter(|p: Seq<char>| p.len() > 0));
        i = i + 1;
    }
    assert(items.take(n as int) =~= items);
    out
}

} // verus!
