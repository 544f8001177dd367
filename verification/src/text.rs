//! Character-level text handling shared by the parsers: the characters of a
//! string, keyword normalisation (trim, then ASCII lower case), and the items
//! of a comma- or space-separated list.

use vstd::prelude::*;
use vstd::string::*;

verus! {

/// Unicode `White_Space` characters, the set `str::trim` removes.
pub open spec fn is_white_space(c: char) -> bool {
    let u = c as u32;
    ||| 9 <= u <= 13
    ||| u == 32
    ||| u == 0x85
    ||| u == 0xa0
    ||| u == 0x1680
    ||| 0x2000 <= u <= 0x200a
    ||| u == 0x2028
    ||| u == 0x2029
    ||| u == 0x202f
    ||| u == 0x205f
    ||| u == 0x3000
}

/// `s` without its leading white space.
pub open spec fn trim_start_chars(s: Seq<char>) -> Seq<char>
    decreases s.len(),
{
    if s.len() > 0 && is_white_space(s[0]) {
        trim_start_chars(s.drop_first())
    } else {
        s
    }
}

/// `s` without its trailing white space.
pub open spec fn trim_end_chars(s: Seq<char>) -> Seq<char>
    decreases s.len(),
{
    if s.len() > 0 && is_white_space(s.last()) {
        trim_end_chars(s.drop_last())
    } else {
        s
    }
}

/// `s` without leading and trailing white space (what `str::trim` keeps).
pub open spec fn trim_chars(s: Seq<char>) -> Seq<char> {
    trim_end_chars(trim_start_chars(s))
}

/// ASCII upper-case letters mapped to lower case; every other character kept.
pub open spec fn ascii_lower(c: char) -> char {
    if 'A' <= c <= 'Z' {
        ((c as u32) + 32) as char
    } else {
        c
    }
}

/// A keyword as the parsers compare it: trimmed, then ASCII-lower-cased.
pub open spec fn normalize_word(s: Seq<char>) -> Seq<char> {
    trim_chars(s).map_values(|c: char| ascii_lower(c))
}

/// The characters of `s`, in order.
pub fn char_vec(s: &str) -> (v: Vec<char>)
    ensures
        v@ == s@,
{
    let mut v: Vec<char> = Vec::new();
    for c in it: s.chars()
        invariant
            v@ == it.seq().take(it.index() as int),
    {
        v.push(c);
    }
    v
}

fn white_space(c: char) -> (b: bool)
    ensures
        b == is_white_space(c),
{
    let u = c as u32;
    (9 <= u && u <= 13) || u == 32 || u == 0x85 || u == 0xa0 || u == 0x1680 || (0x2000 <= u && u
        <= 0x200a) || u == 0x2028 || u == 0x2029 || u == 0x202f || u == 0x205f || u == 0x3000
}

fn lower(c: char) -> (r: char)
    ensures
        r == ascii_lower(c),
{
    if 'A' <= c && c <= 'Z' {
        let b: u8 = c as u8;
        (b + 32) as char
    } else {
        c
    }
}

proof fn lemma_trim_start_skip(s: Seq<char>, k: int)
    requires
        0 <= k <= s.len(),
        forall|j: int| 0 <= j < k ==> is_white_space(#[trigger] s[j]),
    ensures
        trim_start_chars(s) == trim_start_chars(s.subrange(k, s.len() as int)),
    decreases k,
{
    if k == 0 {
        assert(s.subrange(0, s.len() as int) =~= s);
    } else {
        assert(is_white_space(s[0]));
        let t = s.drop_first();
        assert forall|j: int| 0 <= j < k - 1 implies is_white_space(#[trigger] t[j]) by {
            assert(t[j] == s[j + 1]);
        }
        lemma_trim_start_skip(t, k - 1);
        assert(t.subrange(k - 1, t.len() as int) =~= s.subrange(k, s.len() as int));
    }
}

proof fn lemma_trim_end_skip(s: Seq<char>, k: int)
    requires
        0 <= k <= s.len(),
        forall|j: int| k <= j < s.len() ==> is_white_space(#[trigger] s[j]),
    ensures
        trim_end_chars(s) == trim_end_chars(s.subrange(0, k)),
    decreases s.len() - k,
{
    if k == s.len() {
        assert(s.subrange(0, k) =~= s);
    } else {
        assert(is_white_space(s.last()));
        let t = s.drop_last();
        assert forall|j: int| k <= j < t.len() implies is_white_space(#[trigger] t[j]) by {
            assert(t[j] == s[j]);
        }
        lemma_trim_end_skip(t, k);
        assert(t.subrange(0, k) =~= s.subrange(0, k));
    }
}

/// The characters of `s`, trimmed and ASCII-lower-cased.
pub fn normalized_chars(s: &str) -> (v: Vec<char>)
    ensures
        v@ == normalize_word(s@),
{
    let cs = char_vec(s);
    let n = cs.len();
    let mut start: usize = 0;
    while start < n && white_space(cs[start])
        invariant
            n == cs@.len(),
            start <= n,
            forall|j: int| 0 <= j < start ==> is_white_space(#[trigger] cs@[j]),
        decreases n - start,
    {
        start = start + 1;
    }
    let mut end: usize = n;
    while end > start && white_space(cs[end - 1])
        invariant
            n == cs@.len(),
            start <= end <= n,
            forall|j: int| end <= j < n ==> is_white_space(#[trigger] cs@[j]),
        decreases end - start,
    {
        end = end - 1;
    }
    let ghost mid = cs@.subrange(start as int, n as int);
    proof {
        lemma_trim_start_skip(cs@, start as int);
        assert(trim_start_chars(mid) == mid);
        assert forall|j: int| end - start <= j < mid.len() implies is_white_space(
            #[trigger] mid[j],
        ) by {
            assert(mid[j] == cs@[j + start]);
        }
        lemma_trim_end_skip(mid, end - start);
        let core = mid.subrange(0, end - start);
        if core.len() > 0 {
            assert(core.last() == cs@[end - 1]);
        }
        assert(trim_end_chars(core) == core);
        assert(core =~= cs@.subrange(start as int, end as int));
    }
    let mut v: Vec<char> = Vec::new();
    let mut i = start;
    while i < end
        invariant
            n == cs@.len(),
            start <= i <= end <= n,
            v@ == cs@.subrange(start as int, i as int).map_values(|c: char| ascii_lower(c)),
        decreases end - i,
    {
        v.push(lower(cs[i]));
        i = i + 1;
        assert(cs@.subrange(start as int, i as int).map_values(|c: char| ascii_lower(c))
            =~= v@);
    }
    v
}

/// Whether the characters in `v` spell exactly the word `w`.
pub fn chars_equal(v: &Vec<char>, w: &str) -> (b: bool)
    ensures
        b == (v@ == w@),
{
    let wc = char_vec(w);
    if v.len() != wc.len() {
        return false;
    }
    let mut i: usize = 0;
    while i < v.len()
        invariant
            v@.len() == wc@.len(),
            wc@ == w@,
            i <= v@.len(),
            forall|j: int| 0 <= j < i ==> v@[j] == wc@[j],
        decreases v@.len() - i,
    {
        if v[i] != wc[i] {
            assert(v@[i as int] != wc@[i as int]);
            return false;
        }
        i = i + 1;
    }
    assert(v@ =~= wc@);
    true
}


/// A character that neither `trim` removes nor ASCII lower-casing changes.
pub open spec fn is_plain_word_char(c: char) -> bool {
    '!' <= c <= '~' && !('A' <= c <= 'Z')
}

/// A word made of plain characters is its own normal form.
pub proof fn lemma_plain_word_normal(s: Seq<char>)
    requires
        forall|i: int| 0 <= i < s.len() ==> is_plain_word_char(#[trigger] s[i]),
    ensures
        normalize_word(s) == s,
{
    if s.len() > 0 {
        assert(!is_white_space(s[0]));
        assert(!is_white_space(s.last()));
    }
    assert(trim_start_chars(s) == s);
    assert(trim_end_chars(s) == s);
    assert(normalize_word(s) =~= s);
}


/// `s` spells the lower-case word `w` up to ASCII case: each character of
/// `s` is the one of `w`, or the capital of that lower-case letter.
pub open spec fn case_variant(s: Seq<char>, w: Seq<char>) -> bool {
    &&& s.len() == w.len()
    &&& forall|i: int|
        0 <= i < s.len() ==> (#[trigger] s[i] == w[i] || ('a' <= w[i] <= 'z' && s[i] as u32
            + 32 == w[i] as u32))
}

/// ASCII lower-casing moves each capital `A`..`Z` up by 32 code points, to
/// its lower-case letter, and keeps every other character.
pub proof fn lemma_ascii_lower_maps_capitals(c: char)
    ensures
        'A' <= c <= 'Z' ==> ascii_lower(c) as u32 == c as u32 + 32 && 'a' <= ascii_lower(c)
            <= 'z',
        !('A' <= c <= 'Z') ==> ascii_lower(c) == c,
{
}

/// Any spelling of a lower-case keyword `w` that differs only in ASCII case
/// normalises to `w`.
pub proof fn lemma_case_variant_normalizes(s: Seq<char>, w: Seq<char>)
    requires
        case_variant(s, w),
        forall|i: int| 0 <= i < w.len() ==> is_plain_word_char(#[trigger] w[i]),
    ensures
        normalize_word(s) == w,
{
    assert forall|i: int| 0 <= i < s.len() implies !is_white_space(#[trigger] s[i])
        && ascii_lower(s[i]) == w[i] by {
        assert(is_plain_word_char(w[i]));
        if s[i] != w[i] {
            assert(s[i] as u32 + 32 == w[i] as u32);
        }
    }
    if s.len() > 0 {
        assert(!is_white_space(s[0]));
        assert(!is_white_space(s[s.len() - 1]));
    }
    assert(trim_start_chars(s) == s);
    assert(trim_end_chars(s) == s);
    assert(normalize_word(s) =~= w);
}

/// Leading and trailing white space around a keyword (one that starts and
/// ends with a visible character) does not change its normal form.
pub proof fn lemma_normalize_ignores_padding(pre: Seq<char>, s: Seq<char>, post: Seq<char>)
    requires
        forall|i: int| 0 <= i < pre.len() ==> is_white_space(#[trigger] pre[i]),
        forall|i: int| 0 <= i < post.len() ==> is_white_space(#[trigger] post[i]),
        s.len() > 0,
        !is_white_space(s[0]),
        !is_white_space(s.last()),
    ensures
        normalize_word(pre + s + post) == normalize_word(s),
{
    let t = pre + s + post;
    assert forall|j: int| 0 <= j < pre.len() implies is_white_space(#[trigger] t[j]) by {
        assert(t[j] == pre[j]);
    }
    lemma_trim_start_skip(t, pre.len() as int);
    let u = t.subrange(pre.len() as int, t.len() as int);
    assert(u =~= s + post);
    assert(u[0] == s[0]);
    assert(trim_start_chars(u) == u);
    assert forall|j: int| s.len() <= j < u.len() implies is_white_space(#[trigger] u[j]) by {
        assert(u[j] == post[j - s.len()]);
    }
    lemma_trim_end_skip(u, s.len() as int);
    assert(u.subrange(0, s.len() as int) =~= s);
    assert(trim_end_chars(s) == s);
    assert(trim_start_chars(s) == s);
}

/// The separators of a command-line list: a comma or a space.
pub open spec fn is_list_separator(c: char) -> bool {
    c == ',' || c == ' '
}

/// The pieces of `s` between separators, empty pieces included (what
/// `str::split` on `[',', ' ']` yields).
pub open spec fn list_pieces(s: Seq<char>) -> Seq<Seq<char>>
    decreases s.len(),
{
    if s.len() == 0 {
        seq![Seq::<char>::empty()]
    } else {
        let p = list_pieces(s.drop_last());
        if is_list_separator(s.last()) {
            p.push(Seq::<char>::empty())
        } else {
            p.update(p.len() - 1, p.last().push(s.last()))
        }
    }
}

/// The non-empty entries of `p`, in order.
pub open spec fn nonempty_pieces(p: Seq<Seq<char>>) -> Seq<Seq<char>>
    decreases p.len(),
{
    if p.len() == 0 {
        Seq::empty()
    } else {
        let r = nonempty_pieces(p.drop_last());
        if p.last().len() > 0 {
            r.push(p.last())
        } else {
            r
        }
    }
}

/// The items of a comma- or space-separated list: its non-empty pieces.
pub open spec fn list_items(s: Seq<char>) -> Seq<Seq<char>> {
    nonempty_pieces(list_pieces(s))
}

/// The items of a comma- or space-separated list, in order (empty items
/// between repeated separators are dropped).
pub fn split_list(s: &str) -> (items: Vec<String>)
    ensures
        items@.len() == list_items(s@).len(),
        forall|k: int| 0 <= k < items@.len() ==> #[trigger] items@[k]@ == list_items(s@)[k],
{
    let cs = char_vec(s);
    let n = cs.len();
    let mut items: Vec<String> = Vec::new();
    let mut start: usize = 0;
    let mut i: usize = 0;
    proof {
        assert(cs@.take(0) =~= Seq::<char>::empty());
        assert(cs@.subrange(0, 0) =~= Seq::<char>::empty());
    }
    while i < n
        invariant
            n == cs@.len(),
            cs@ == s@,
            start <= i <= n,
            list_pieces(cs@.take(i as int)).len() >= 1,
            list_pieces(cs@.take(i as int)).last() == cs@.subrange(start as int, i as int),
            items@.len() == nonempty_pieces(list_pieces(cs@.take(i as int)).drop_last()).len(),
            forall|k: int|
                0 <= k < items@.len() ==> #[trigger] items@[k]@ == nonempty_pieces(
                    list_pieces(cs@.take(i as int)).drop_last(),
                )[k],
        decreases n - i,
    {
        let ghost before = list_pieces(cs@.take(i as int));
        let ghost old_items = items@;
        proof {
            assert(cs@.take(i + 1).drop_last() =~= cs@.take(i as int));
            assert(cs@.take(i + 1).last() == cs@[i as int]);
        }
        if cs[i] == ',' || cs[i] == ' ' {
            let ghost after = list_pieces(cs@.take(i + 1));
            proof {
                assert(after == before.push(Seq::<char>::empty()));
                assert(after.drop_last() =~= before);
            }
            if start < i {
                let item = s.substring_char(start, i).to_owned();
                items.push(item);
                proof {
                    assert(before.last().len() > 0);
                    assert(before =~= before.drop_last().push(before.last()));
                }
            } else {
                proof {
                    assert(before =~= before.drop_last().push(before.last()));
                }
            }
            start = i + 1;
            proof {
                assert(cs@.subrange(start as int, i + 1) =~= Seq::<char>::empty());
                assert forall|k: int| 0 <= k < items@.len() implies #[trigger] items@[k]@
                    == nonempty_pieces(after.drop_last())[k] by {
                    if k < old_items.len() {
                        assert(items@[k] == old_items[k]);
                    }
                }
            }
        } else {
            let ghost after = list_pieces(cs@.take(i + 1));
            proof {
                assert(after == before.update(before.len() - 1, before.last().push(cs@[i as int])));
                assert(after.drop_last() =~= before.drop_last());
                assert(cs@.subrange(start as int, i + 1) =~= cs@.subrange(start as int, i as int).push(
                    cs@[i as int],
                ));
            }
        }
        i = i + 1;
    }
    let ghost whole = list_pieces(cs@.take(n as int));
    let ghost old_items = items@;
    proof {
        assert(cs@.take(n as int) =~= cs@);
        assert(whole =~= whole.drop_last().push(whole.last()));
    }
    if start < n {
        let item = s.substring_char(start, n).to_owned();
        items.push(item);
    }
    proof {
        assert forall|k: int| 0 <= k < items@.len() implies #[trigger] items@[k]@ == list_items(
            s@,
        )[k] by {
            if k < old_items.len() {
                assert(items@[k] == old_items[k]);
            }
        }
    }
    items
}

} // verus!
