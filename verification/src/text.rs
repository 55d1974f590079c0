//! Text helpers shared by the stores: character access, splitting on a
//! separator, trimming, searching, prefix tests and lists of texts, each
//! stated over sequences of characters.

use vstd::prelude::*;

verus! {

/// `==` on string slices, as std defines it: the two slices hold the same
/// characters in the same order.
pub assume_specification[ <str as PartialEq>::eq ](a: &str, b: &str) -> (r: bool)
    ensures
        r == (a@ == b@),
;

/// `String::push`, as std defines it: the character goes to the end.
pub assume_specification[ String::push ](s: &mut String, c: char)
    ensures
        final(s)@ == old(s)@.push(c),
;

/// The views of a sequence of owned strings.
pub open spec fn views_of(v: Seq<String>) -> Seq<Seq<char>> {
    v.map_values(|s: String| s@)
}

/// Whether two string slices hold the same characters.
pub fn same_text(a: &str, b: &str) -> (r: bool)
    ensures
        r == (a@ == b@),
{
    *a == *b
}

/// The characters of `s`, in order.
pub fn chars_of(s: &str) -> (v: Vec<char>)
    ensures
        v@ == s@,
{
    let mut v: Vec<char> = Vec::new();
    for c in it: s.chars()
        invariant
            it.seq() == s@,
            v@ == it.seq().take(it.index()),
    {
        v.push(c);
        assert(it.seq().take(it.index() + 1) == it.seq().take(it.index()).push(c));
    }
    v
}

/// The pieces of `s` that lie between occurrences of `sep`. There is always
/// at least one piece; an empty text has one empty piece, and a separator at
/// either end leaves an empty piece there.
pub open spec fn split_on(s: Seq<char>, sep: char) -> Seq<Seq<char>>
    decreases s.len(),
{
    if s.len() == 0 {
        seq![Seq::<char>::empty()]
    } else {
        let before = split_on(s.drop_last(), sep);
        if s.last() == sep {
            before.push(Seq::<char>::empty())
        } else {
            before.drop_last().push(before.last().push(s.last()))
        }
    }
}

/// How often `c` occurs in `s`.
pub open spec fn count_of(s: Seq<char>, c: char) -> nat
    decreases s.len(),
{
    if s.len() == 0 {
        0
    } else {
        count_of(s.drop_last(), c) + if s.last() == c { 1nat } else { 0nat }
    }
}

/// The pieces joined again, with `sep` between neighbours.
pub open spec fn join_with(parts: Seq<Seq<char>>, sep: char) -> Seq<char>
    decreases parts.len(),
{
    if parts.len() == 0 {
        Seq::<char>::empty()
    } else if parts.len() == 1 {
        parts[0]
    } else {
        join_with(parts.drop_last(), sep).push(sep) + parts.last()
    }
}

/// Splitting yields one more piece than there are separators.
pub proof fn lemma_split_len(s: Seq<char>, sep: char)
    ensures
        split_on(s, sep).len() == count_of(s, sep) + 1,
    decreases s.len(),
{
    if s.len() > 0 {
        lemma_split_len(s.drop_last(), sep);
    }
}

/// No piece of a split holds the separator.
pub proof fn lemma_split_pieces_clean(s: Seq<char>, sep: char)
    ensures
        forall|i: int, j: int|
            0 <= i < split_on(s, sep).len() && 0 <= j < split_on(s, sep)[i].len()
                ==> split_on(s, sep)[i][j] != sep,
    decreases s.len(),
{
    if s.len() > 0 {
        lemma_split_pieces_clean(s.drop_last(), sep);
        lemma_split_len(s.drop_last(), sep);
    }
}

/// Joining the pieces of a split gives the text back.
pub proof fn lemma_join_split(s: Seq<char>, sep: char)
    ensures
        join_with(split_on(s, sep), sep) == s,
    decreases s.len(),
{
    if s.len() == 0 {
        assert(join_with(split_on(s, sep), sep) =~= s);
    } else {
        let head = s.drop_last();
        let before = split_on(head, sep);
        lemma_join_split(head, sep);
        lemma_split_len(head, sep);
        let parts = split_on(s, sep);
        if s.last() == sep {
            assert(parts.drop_last() =~= before);
            assert(join_with(parts, sep) =~= s);
        } else {
            let grown = before.last().push(s.last());
            if before.len() == 1 {
                assert(before.drop_last().push(grown) =~= seq![grown]);
                assert(join_with(parts, sep) =~= s);
            } else {
                assert(parts.drop_last() =~= before.drop_last());
                assert(parts.last() == grown);
                assert(s =~= head.push(s.last()));
                assert(join_with(before, sep) == join_with(before.drop_last(), sep).push(sep)
                    + before.last());
                assert(join_with(parts, sep) == join_with(before.drop_last(), sep).push(sep)
                    + grown);
                assert(join_with(parts, sep) =~= s);
            }
        }
    }
}

/// Splits `s` at every occurrence of `sep`.
pub fn split_text(s: &str, sep: char) -> (parts: Vec<String>)
    ensures
        views_of(parts@) == split_on(s@, sep),
        parts@.len() >= 1,
{
    let cs = chars_of(s);
    let n = cs.len();
    let mut parts: Vec<String> = Vec::new();
    let mut start: usize = 0;
    let mut i: usize = 0;
    assert(s@.take(0) =~= Seq::<char>::empty());
    assert(s@.subrange(0, 0) =~= Seq::<char>::empty());
    assert(views_of(parts@) =~= Seq::<Seq<char>>::empty());
    assert(Seq::<Seq<char>>::empty().push(Seq::<char>::empty()) =~= seq![Seq::<char>::empty()]);
    while i < n
        invariant
            cs@ == s@,
            n == cs.len(),
            start <= i <= n,
            split_on(s@.take(i as int), sep) == views_of(parts@).push(
                s@.subrange(start as int, i as int),
            ),
        decreases n - i,
    {
        let c = cs[i];
        proof {
            let next = s@.take(i + 1);
            assert(next.drop_last() =~= s@.take(i as int));
            assert(next.last() == c);
            let before = split_on(s@.take(i as int), sep);
            assert(before.last() == s@.subrange(start as int, i as int));
            assert(before.drop_last() =~= views_of(parts@));
        }
        if c == sep {
            let piece = s.substring_char(start, i);
            let owned = piece.to_owned();
            let ghost old_parts = parts@;
            parts.push(owned);
            start = i + 1;
            proof {
                assert(views_of(parts@) =~= views_of(old_parts).push(owned@));
                assert(s@.subrange(start as int, i + 1) =~= Seq::<char>::empty());
            }
        } else {
            proof {
                assert(s@.subrange(start as int, i + 1) =~= s@.subrange(
                    start as int,
                    i as int,
                ).push(c));
            }
        }
        i = i + 1;
    }
    let piece = s.substring_char(start, n);
    let owned = piece.to_owned();
    let ghost old_parts = parts@;
    parts.push(owned);
    proof {
        assert(s@.take(n as int) =~= s@);
        assert(views_of(parts@) =~= views_of(old_parts).push(owned@));
    }
    parts
}

/// Whether `c` is white space: a character with the Unicode property
/// `White_Space`.
pub open spec fn is_whitespace(c: char) -> bool {
    let n = c as u32;
    ||| 0x09 <= n <= 0x0D
    ||| n == 0x20
    ||| n == 0x85
    ||| n == 0xA0
    ||| n == 0x1680
    ||| 0x2000 <= n <= 0x200A
    ||| n == 0x2028
    ||| n == 0x2029
    ||| n == 0x202F
    ||| n == 0x205F
    ||| n == 0x3000
}

/// Whether `c` is white space.
pub fn is_space(c: char) -> (b: bool)
    ensures
        b == is_whitespace(c),
{
    let n = c as u32;
    (0x09 <= n && n <= 0x0D) || n == 0x20 || n == 0x85 || n == 0xA0 || n == 0x1680 || (0x2000 <= n
        && n <= 0x200A) || n == 0x2028 || n == 0x2029 || n == 0x202F || n == 0x205F || n == 0x3000
}

/// `s` without the white space at its start.
pub open spec fn trim_start(s: Seq<char>) -> Seq<char>
    decreases s.len(),
{
    if s.len() > 0 && is_whitespace(s.first()) {
        trim_start(s.drop_first())
    } else {
        s
    }
}

/// `s` without the white space at its end.
pub open spec fn trim_end(s: Seq<char>) -> Seq<char>
    decreases s.len(),
{
    if s.len() > 0 && is_whitespace(s.last()) {
        trim_end(s.drop_last())
    } else {
        s
    }
}

/// `s` without the white space at either end.
pub open spec fn trimmed(s: Seq<char>) -> Seq<char> {
    trim_end(trim_start(s))
}

/// `s` without the white space at either end.
pub fn trim_text(s: &str) -> (t: String)
    ensures
        t@ == trimmed(s@),
{
    let cs = chars_of(s);
    let n = cs.len();
    let mut i: usize = 0;
    assert(s@.skip(0) =~= s@);
    while i < n && is_space(cs[i])
        invariant
            cs@ == s@,
            n == cs.len(),
            i <= n,
            trim_start(s@) == trim_start(s@.skip(i as int)),
        decreases n - i,
    {
        proof {
            let rest = s@.skip(i as int);
            assert(rest.first() == s@[i as int]);
            assert(rest.drop_first() =~= s@.skip(i + 1));
        }
        i = i + 1;
    }
    proof {
        let rest = s@.skip(i as int);
        if i < n {
            assert(rest.first() == s@[i as int]);
        }
        assert(trim_start(s@) == rest);
    }
    let mut j: usize = n;
    assert(s@.subrange(i as int, n as int) =~= s@.skip(i as int));
    while j > i && is_space(cs[j - 1])
        invariant
            cs@ == s@,
            n == cs.len(),
            i <= j <= n,
            trimmed(s@) == trim_end(s@.subrange(i as int, j as int)),
        decreases j,
    {
        proof {
            let part = s@.subrange(i as int, j as int);
            assert(part.last() == s@[j - 1]);
            assert(part.drop_last() =~= s@.subrange(i as int, j - 1));
        }
        j = j - 1;
    }
    proof {
        let part = s@.subrange(i as int, j as int);
        if j > i {
            assert(part.last() == s@[j - 1]);
        }
        assert(trim_end(part) == part);
    }
    s.substring_char(i, j).to_owned()
}

/// `s` without the occurrences of `c`.
pub open spec fn without_char(s: Seq<char>, c: char) -> Seq<char>
    decreases s.len(),
{
    if s.len() == 0 {
        s
    } else if s.last() == c {
        without_char(s.drop_last(), c)
    } else {
        without_char(s.drop_last(), c).push(s.last())
    }
}

/// `s` without the occurrences of `c`.
pub fn strip_char(s: &str, c: char) -> (t: String)
    ensures
        t@ == without_char(s@, c),
{
    let mut t = String::new();
    for x in it: s.chars()
        invariant
            it.seq() == s@,
            t@ == without_char(s@.take(it.index()), c),
    {
        proof {
            let next = s@.take(it.index() + 1);
            assert(next.drop_last() =~= s@.take(it.index()));
            assert(next.last() == x);
        }
        if x != c {
            t.push(x);
        }
    }
    assert(s@.take(s@.len() as int) =~= s@);
    t
}

/// Whether `s` starts with `prefix`.
pub open spec fn starts_with(s: Seq<char>, prefix: Seq<char>) -> bool {
    prefix.len() <= s.len() && s.take(prefix.len() as int) == prefix
}

/// Whether `s` ends with `suffix`.
pub open spec fn ends_with(s: Seq<char>, suffix: Seq<char>) -> bool {
    suffix.len() <= s.len() && s.skip(s.len() - suffix.len()) == suffix
}

/// Whether the two character lists agree from `a_from` and `b_from` on for
/// `len` characters.
fn same_run(a: &Vec<char>, a_from: usize, b: &Vec<char>, b_from: usize, len: usize) -> (same: bool)
    requires
        a_from + len <= a@.len(),
        b_from + len <= b@.len(),
    ensures
        same == (a@.subrange(a_from as int, a_from + len) == b@.subrange(b_from as int, b_from + len)),
{
    let mut k: usize = 0;
    assert(a@.subrange(a_from as int, a_from + 0) =~= b@.subrange(b_from as int, b_from + 0));
    while k < len
        invariant
            k <= len,
            a_from + len <= a.len(),
            b_from + len <= b.len(),
            a@.subrange(a_from as int, a_from + k) == b@.subrange(b_from as int, b_from + k),
        decreases len - k,
    {
        if a[a_from + k] != b[b_from + k] {
            proof {
                let x = a@.subrange(a_from as int, a_from + len);
                let y = b@.subrange(b_from as int, b_from + len);
                assert(x[k as int] != y[k as int]);
            }
            return false;
        }
        proof {
            let x = a@.subrange(a_from as int, a_from + k);
            let y = b@.subrange(b_from as int, b_from + k);
            assert(a@.subrange(a_from as int, a_from + k + 1) =~= x.push(a@[a_from + k]));
            assert(b@.subrange(b_from as int, b_from + k + 1) =~= y.push(b@[b_from + k]));
        }
        k = k + 1;
    }
    true
}

/// Whether `needle` stands in `s` at position `i`.
pub open spec fn occurs_at(s: Seq<char>, needle: Seq<char>, i: int) -> bool {
    0 <= i && i + needle.len() <= s.len() && s.subrange(i, i + needle.len()) == needle
}

/// Whether position `i` holds the first occurrence of `needle` in `s`.
pub open spec fn first_at(s: Seq<char>, needle: Seq<char>, i: int) -> bool {
    occurs_at(s, needle, i) && forall|j: int| 0 <= j < i ==> !occurs_at(s, needle, j)
}

/// Whether `needle` occurs in `s`.
pub open spec fn occurs_in(s: Seq<char>, needle: Seq<char>) -> bool {
    exists|i: int| occurs_at(s, needle, i)
}

/// A first occurrence is where it is: no other position is one.
pub proof fn lemma_first_at_unique(s: Seq<char>, needle: Seq<char>, i: int, j: int)
    requires
        first_at(s, needle, i),
        first_at(s, needle, j),
    ensures
        i == j,
{
    if i < j {
        assert(!occurs_at(s, needle, i));
    } else if j < i {
        assert(!occurs_at(s, needle, j));
    }
}

/// Where `needle` first occurs among the characters `s`.
pub fn find_chars(s: &Vec<char>, needle: &Vec<char>) -> (at: Option<usize>)
    ensures
        match at {
            Some(i) => first_at(s@, needle@, i as int),
            None => !occurs_in(s@, needle@),
        },
{
    let n = s.len();
    let m = needle.len();
    if m > n {
        return None;
    }
    let mut i: usize = 0;
    loop
        invariant
            n == s.len(),
            m == needle.len(),
            m <= n,
            i <= n - m,
            forall|j: int| 0 <= j < i ==> !occurs_at(s@, needle@, j),
        decreases n - m - i,
    {
        proof {
            assert(needle@.subrange(0, m as int) =~= needle@);
        }
        if same_run(s, i, needle, 0, m) {
            return Some(i);
        }
        if i == n - m {
            return None;
        }
        i = i + 1;
    }
}

/// What stands before and after the first occurrence of `needle` in `s`;
/// nothing if `needle` does not occur.
pub fn split_once_text(s: &str, needle: &str) -> (parts: Option<(String, String)>)
    ensures
        match parts {
            Some((before, after)) => exists|i: int|
                first_at(s@, needle@, i) && before@ == s@.take(i) && after@ == s@.skip(
                    i + needle@.len(),
                ),
            None => !occurs_in(s@, needle@),
        },
{
    let cs = chars_of(s);
    let ns = chars_of(needle);
    match find_chars(&cs, &ns) {
        None => None,
        Some(i) => {
            proof {
                assert(s@.subrange(0, i as int) =~= s@.take(i as int));
                assert(s@.subrange(i + ns@.len(), s@.len() as int) =~= s@.skip(i + ns@.len()));
            }
            assert(i + ns.len() <= cs.len());
            let before = s.substring_char(0, i).to_owned();
            let after = s.substring_char(i + ns.len(), cs.len()).to_owned();
            Some((before, after))
        },
    }
}

/// Whether `s` starts with `prefix`.
pub fn has_prefix(s: &str, prefix: &str) -> (b: bool)
    ensures
        b == starts_with(s@, prefix@),
{
    let cs = chars_of(s);
    let ps = chars_of(prefix);
    if ps.len() > cs.len() {
        return false;
    }
    let same = same_run(&cs, 0, &ps, 0, ps.len());
    proof {
        assert(ps@.subrange(0, ps@.len() as int) =~= ps@);
        assert(cs@.subrange(0, ps@.len() as int) =~= s@.take(prefix@.len() as int));
    }
    same
}

/// Whether `s` ends with `suffix`.
pub fn has_suffix(s: &str, suffix: &str) -> (b: bool)
    ensures
        b == ends_with(s@, suffix@),
{
    let cs = chars_of(s);
    let ps = chars_of(suffix);
    if ps.len() > cs.len() {
        return false;
    }
    let from = cs.len() - ps.len();
    let same = same_run(&cs, from, &ps, 0, ps.len());
    proof {
        assert(ps@.subrange(0, ps@.len() as int) =~= ps@);
        assert(cs@.subrange(from as int, from + ps@.len()) =~= s@.skip(s@.len() - suffix@.len()));
    }
    same
}

/// The test that a text passes unless it equals `gone`.
pub open spec fn text_differs(gone: Seq<char>) -> spec_fn(Seq<char>) -> bool {
    |t: Seq<char>| t != gone
}

/// The list with `text` added at its end, unless the list holds it.
pub open spec fn with_text(list: Seq<Seq<char>>, text: Seq<char>) -> Seq<Seq<char>> {
    if list.contains(text) {
        list
    } else {
        list.push(text)
    }
}

/// The list without the texts equal to `gone`.
pub open spec fn without_text(list: Seq<Seq<char>>, gone: Seq<char>) -> Seq<Seq<char>> {
    list.filter(text_differs(gone))
}

/// Dropping a text that the list does not hold leaves the list as it is.
pub proof fn lemma_without_absent_text(list: Seq<Seq<char>>, gone: Seq<char>)
    requires
        !list.contains(gone),
    ensures
        without_text(list, gone) == list,
    decreases list.len(),
{
    reveal(Seq::filter);
    if list.len() > 0 {
        let head = list.drop_last();
        assert forall|c: Seq<char>| head.contains(c) implies list.contains(c) by {
            let i = choose|i: int| 0 <= i < head.len() && head[i] == c;
            assert(list[i] == c);
        }
        lemma_without_absent_text(head, gone);
        assert(list.last() != gone) by {
            assert(list[list.len() - 1] == list.last());
        }
        assert(head.push(list.last()) =~= list);
    } else {
        assert(without_text(list, gone) =~= list);
    }
}

/// After dropping a text the list does not hold it, and holds every other
/// text exactly if it did before.
pub proof fn lemma_without_text(list: Seq<Seq<char>>, gone: Seq<char>)
    ensures
        !without_text(list, gone).contains(gone),
        forall|t: Seq<char>| t != gone ==> without_text(list, gone).contains(t) == list.contains(t),
{
    let pred = text_differs(gone);
    let out = without_text(list, gone);
    assert forall|t: Seq<char>| out.contains(t) implies t != gone && list.contains(t) by {
        list.lemma_filter_contains_rev(pred, t);
        let i = choose|i: int| 0 <= i < out.len() && out[i] == t;
        list.lemma_filter_pred(pred, i);
    }
    assert forall|t: Seq<char>| t != gone && list.contains(t) implies out.contains(t) by {
        let i = choose|i: int| 0 <= i < list.len() && list[i] == t;
        list.lemma_filter_contains(pred, i);
    }
}

/// Whether the list holds `text`.
pub fn holds_text(list: &Vec<String>, text: &str) -> (b: bool)
    ensures
        b == views_of(list@).contains(text@),
{
    let n = list.len();
    let mut i: usize = 0;
    while i < n
        invariant
            n == list@.len(),
            i <= n,
            forall|j: int| 0 <= j < i ==> (#[trigger] views_of(list@)[j]) != text@,
        decreases n - i,
    {
        if same_text(list[i].as_str(), text) {
            assert(views_of(list@)[i as int] == text@);
            return true;
        }
        i = i + 1;
    }
    false
}

/// Appends `text` unless the list holds it; says whether it was added.
pub fn add_text(list: &mut Vec<String>, text: String) -> (added: bool)
    ensures
        added == !views_of(old(list)@).contains(text@),
        views_of(final(list)@) == with_text(views_of(old(list)@), text@),
{
    if holds_text(list, text.as_str()) {
        false
    } else {
        let ghost before = views_of(list@);
        list.push(text);
        assert(views_of(list@) =~= before.push(text@));
        true
    }
}

/// Drops every text equal to `gone` and keeps the others in their order;
/// says whether there was one.
pub fn drop_text(list: &mut Vec<String>, gone: &str) -> (dropped: bool)
    ensures
        dropped == views_of(old(list)@).contains(gone@),
        views_of(final(list)@) == without_text(views_of(old(list)@), gone@),
        !dropped ==> views_of(final(list)@) == views_of(old(list)@),
{
    if !holds_text(list, gone) {
        proof {
            lemma_without_absent_text(views_of(list@), gone@);
        }
        return false;
    }
    let n = list.len();
    let mut kept: Vec<String> = Vec::new();
    let mut i: usize = 0;
    proof {
        reveal(Seq::filter);
        assert(views_of(list@).take(0) =~= Seq::<Seq<char>>::empty());
        assert(views_of(kept@) =~= Seq::<Seq<char>>::empty());
    }
    while i < n
        invariant
            n == list@.len(),
            i <= n,
            views_of(kept@) == without_text(views_of(list@).take(i as int), gone@),
        decreases n - i,
    {
        let ghost all = views_of(list@);
        let ghost before = views_of(kept@);
        proof {
            reveal(Seq::filter);
            assert(all.take(i + 1).drop_last() =~= all.take(i as int));
            assert(all.take(i + 1).last() == list@[i as int]@);
        }
        if !same_text(list[i].as_str(), gone) {
            let copy = list[i].clone();
            kept.push(copy);
            assert(views_of(kept@) =~= before.push(copy@));
        }
        i = i + 1;
    }
    assert(views_of(list@).take(n as int) =~= views_of(list@));
    *list = kept;
    true
}

/// The character that joins the components of a hierarchical identifier.
pub const ID_SEPARATOR: char = '_';

/// The components of a hierarchical identifier: its pieces between
/// underscores.
pub open spec fn id_parts(id: Seq<char>) -> Seq<Seq<char>> {
    split_on(id, '_')
}

/// Splits a hierarchical identifier into its components.
pub fn split_id(id: &str) -> (parts: Vec<String>)
    ensures
        views_of(parts@) == id_parts(id@),
        parts@.len() >= 1,
        parts@.len() == count_of(id@, '_') + 1,
{
    proof {
        lemma_split_len(id@, '_');
    }
    let parts = split_text(id, ID_SEPARATOR);
    assert(views_of(parts@).len() == parts@.len());
    parts
}

} // verus!
