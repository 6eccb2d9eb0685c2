//! Character and string utilities shared by the whole harness: the identifier
//! character set used by schema versions, catalog keys and capability ids,
//! plain string equality and lexicographic comparison, trimming, substring
//! search, and list splitting.

use vstd::prelude::*;

verus! {

/// The character set `[A-Za-z0-9_.-]` that schema versions, catalog keys and
/// capability ids must draw from.
pub open spec fn is_ident_char(c: char) -> bool {
    let u = c as u32;
    (97 <= u && u <= 122)  // a-z
    || (65 <= u && u <= 90)  // A-Z
    || (48 <= u && u <= 57)  // 0-9
    || u == 95  // _
    || u == 46  // .
    || u == 45  // -
}

/// A non-empty sequence of identifier characters: the shape `^[A-Za-z0-9_.-]+$`.
pub open spec fn is_ident_seq(s: Seq<char>) -> bool {
    s.len() > 0 && (forall|i: int| 0 <= i < s.len() ==> is_ident_char(s[i]))
}

fn ident_char(c: char) -> (r: bool)
    ensures
        r == is_ident_char(c),
{
    let u = c as u32;
    (97 <= u && u <= 122) || (65 <= u && u <= 90) || (48 <= u && u <= 57) || u == 95 || u == 46
        || u == 45
}

/// Whether `s` is non-empty and made only of `[A-Za-z0-9_.-]`.
pub fn is_ident_str(s: &str) -> (r: bool)
    ensures
        r == is_ident_seq(s@),
{
    let n = s.unicode_len();
    if n == 0 {
        return false;
    }
    let mut i: usize = 0;
    while i < n
        invariant
            n == s@.len(),
            0 <= i <= n,
            forall|j: int| 0 <= j < i ==> is_ident_char(s@[j]),
        decreases n - i,
    {
        if !ident_char(s.get_char(i)) {
            return false;
        }
        i = i + 1;
    }
    true
}

/// Lexicographic order on character sequences, by Unicode code point.
pub open spec fn lex_lt(a: Seq<char>, b: Seq<char>) -> bool
    decreases a.len(),
{
    if b.len() == 0 {
        false
    } else if a.len() == 0 {
        true
    } else if a[0] != b[0] {
        (a[0] as u32) < (b[0] as u32)
    } else {
        lex_lt(a.drop_first(), b.drop_first())
    }
}

/// Distinct characters have distinct code points.
proof fn lemma_char_code_injective(c1: char, c2: char)
    requires
        c1 != c2,
    ensures
        c1 as u32 != c2 as u32,
{
}

/// The order is irreflexive.
pub proof fn lemma_lex_irrefl(a: Seq<char>)
    ensures
        !lex_lt(a, a),
    decreases a.len(),
{
    if a.len() > 0 {
        lemma_lex_irrefl(a.drop_first());
    }
}

/// Any two sequences are ordered or equal.
pub proof fn lemma_lex_connex(a: Seq<char>, b: Seq<char>)
    ensures
        lex_lt(a, b) || lex_lt(b, a) || a == b,
    decreases a.len(),
{
    if b.len() == 0 {
        if a.len() == 0 {
            assert(a =~= b);
        } else {
            assert(lex_lt(b, a));
        }
    } else if a.len() == 0 {
        assert(lex_lt(a, b));
    } else if a[0] != b[0] {
        lemma_char_code_injective(a[0], b[0]);
    } else {
        lemma_lex_connex(a.drop_first(), b.drop_first());
        if a.drop_first() == b.drop_first() {
            assert(a.drop_first().len() == b.drop_first().len());
            assert(a.len() == b.len());
            assert forall|i: int| 0 <= i < a.len() implies a[i] == b[i] by {
                if i > 0 {
                    assert(a.drop_first()[i - 1] == b.drop_first()[i - 1]);
                }
            }
            assert(a =~= b);
        }
    }
}

/// The order is transitive.
pub proof fn lemma_lex_trans(a: Seq<char>, b: Seq<char>, c: Seq<char>)
    requires
        lex_lt(a, b),
        lex_lt(b, c),
    ensures
        lex_lt(a, c),
    decreases a.len(),
{
    if a.len() == 0 {
    } else {
        if a[0] == b[0] && b[0] == c[0] {
            lemma_lex_trans(a.drop_first(), b.drop_first(), c.drop_first());
        }
    }
}

/// Lexicographic comparison of two strings: `r` holds iff `a` sorts strictly
/// before `b`.
pub fn str_lt(a: &str, b: &str) -> (r: bool)
    ensures
        r == lex_lt(a@, b@),
{
    let na = a.unicode_len();
    let nb = b.unicode_len();
    let mut i: usize = 0;
    proof {
        assert(a@.skip(0) =~= a@);
        assert(b@.skip(0) =~= b@);
    }
    while i < na && i < nb
        invariant
            na == a@.len(),
            nb == b@.len(),
            0 <= i <= na,
            0 <= i <= nb,
            lex_lt(a@, b@) == lex_lt(a@.skip(i as int), b@.skip(i as int)),
        decreases na - i,
    {
        let ca = a.get_char(i);
        let cb = b.get_char(i);
        if ca != cb {
            return (ca as u32) < (cb as u32);
        }
        proof {
            assert(a@.skip(i as int).drop_first() =~= a@.skip(i + 1));
            assert(b@.skip(i as int).drop_first() =~= b@.skip(i + 1));
        }
        i = i + 1;
    }
    i < nb
}

/// String equality over the character views.
pub fn str_eq(a: &str, b: &str) -> (r: bool)
    ensures
        r == (a@ == b@),
{
    let na = a.unicode_len();
    let nb = b.unicode_len();
    if na != nb {
        return false;
    }
    let mut i: usize = 0;
    while i < na
        invariant
            na == a@.len(),
            na == b@.len(),
            0 <= i <= na,
            forall|j: int| 0 <= j < i ==> a@[j] == b@[j],
        decreases na - i,
    {
        if a.get_char(i) != b.get_char(i) {
            return false;
        }
        i = i + 1;
    }
    proof {
        assert(a@ =~= b@);
    }
    true
}

/// ASCII whitespace, as used when trimming identifiers and splitting lists.
pub open spec fn is_space_char(c: char) -> bool {
    c == ' ' || c == '\t' || c == '\n' || c == '\r'
}

/// `s` with leading whitespace removed.
pub open spec fn trim_front(s: Seq<char>) -> Seq<char>
    decreases s.len(),
{
    if s.len() > 0 && is_space_char(s[0]) {
        trim_front(s.drop_first())
    } else {
        s
    }
}

/// `s` with trailing whitespace removed.
pub open spec fn trim_back(s: Seq<char>) -> Seq<char>
    decreases s.len(),
{
    if s.len() > 0 && is_space_char(s[s.len() - 1]) {
        trim_back(s.drop_last())
    } else {
        s
    }
}

/// `s` with leading and trailing whitespace removed.
pub open spec fn trim_seq(s: Seq<char>) -> Seq<char> {
    trim_back(trim_front(s))
}

/// Trim ASCII whitespace from both ends of `s`.
pub fn trim_str(s: &str) -> (r: String)
    ensures
        r@ == trim_seq(s@),
{
    let n = s.unicode_len();
    let mut start: usize = 0;
    proof {
        assert(s@.skip(0) =~= s@);
    }
    while start < n && space_char(s.get_char(start))
        invariant
            n == s@.len(),
            0 <= start <= n,
            trim_front(s@) == trim_front(s@.skip(start as int)),
        decreases n - start,
    {
        proof {
            assert(s@.skip(start as int).drop_first() =~= s@.skip(start + 1));
        }
        start = start + 1;
    }
    proof {
        assert(trim_front(s@) =~= s@.skip(start as int));
    }
    if start == n {
        proof {
            assert(s@.skip(start as int) =~= Seq::<char>::empty());
        }
        return String::new();
    }
    let mut end: usize = n;
    while end > start && space_char(s.get_char(end - 1))
        invariant
            n == s@.len(),
            0 <= start <= end <= n,
            start < n,
            !is_space_char(s@[start as int]),
            trim_front(s@) == s@.skip(start as int),
            trim_back(s@.skip(start as int)) == trim_back(
                s@.subrange(start as int, end as int),
            ),
        decreases end,
    {
        proof {
            assert(s@.subrange(start as int, end as int).drop_last() =~= s@.subrange(
                start as int,
                end - 1,
            ));
        }
        end = end - 1;
    }
    proof {
        let sub = s@.subrange(start as int, end as int);
        if end == start {
            assert(sub.len() == 0);
        } else {
            assert(!is_space_char(sub[sub.len() - 1]));
        }
        assert(trim_back(sub) == sub);
    }
    let piece = s.substring_char(start, end);
    let r = piece.to_owned();
    r
}

fn space_char(c: char) -> (r: bool)
    ensures
        r == is_space_char(c),
{
    c == ' ' || c == '\t' || c == '\n' || c == '\r'
}

/// Whether the needle `n` occurs contiguously inside the haystack `h`.
pub open spec fn seq_contains_sub(h: Seq<char>, n: Seq<char>) -> bool {
    exists|i: int| 0 <= i <= h.len() - n.len() && #[trigger] h.subrange(i, i + n.len()) == n
}

/// Substring search: `r` holds iff `needle` occurs inside `hay`.
pub fn str_contains(hay: &str, needle: &str) -> (r: bool)
    ensures
        r == seq_contains_sub(hay@, needle@),
{
    let nh = hay.unicode_len();
    let nn = needle.unicode_len();
    if nn > nh {
        return false;
    }
    if nn == 0 {
        proof {
            assert(hay@.subrange(0, 0 + needle@.len() as int) =~= needle@);
        }
        return true;
    }
    let mut i: usize = 0;
    while i <= nh - nn
        invariant
            nh == hay@.len(),
            nn == needle@.len(),
            0 < nn <= nh,
            0 <= i <= nh - nn + 1,
            forall|k: int| 0 <= k < i ==> #[trigger] hay@.subrange(k, k + nn) != needle@,
        decreases nh - i,
    {
        let mut j: usize = 0;
        let mut matched = true;
        while j < nn
            invariant
                nh == hay@.len(),
                nn == needle@.len(),
                0 <= i <= nh - nn,
                0 <= j <= nn,
                matched ==> forall|t: int| 0 <= t < j ==> hay@[i + t] == needle@[t],
                !matched ==> hay@.subrange(i as int, i + nn) != needle@,
            decreases nn - j,
        {
            if hay.get_char(i + j) != needle.get_char(j) {
                proof {
                    assert(hay@.subrange(i as int, i + nn)[j as int] != needle@[j as int]);
                }
                matched = false;
                j = nn;
            } else {
                j = j + 1;
            }
        }
        if matched {
            proof {
                assert(hay@.subrange(i as int, i + nn) =~= needle@);
            }
            return true;
        }
        i = i + 1;
    }
    false
}

/// Strict ascending lexicographic order over a list of strings; implies the
/// entries are pairwise distinct.
pub open spec fn strictly_sorted_strings(s: Seq<Seq<char>>) -> bool {
    forall|i: int, j: int| 0 <= i < j < s.len() ==> lex_lt(#[trigger] s[i], #[trigger] s[j])
}

/// Insert `value` into the strictly sorted `list`, keeping it sorted and
/// dropping the value if an equal entry is already present.
pub fn insert_sorted_dedup(list: &mut Vec<String>, value: String)
    requires
        strictly_sorted_strings(old(list).deep_view()),
    ensures
        strictly_sorted_strings(final(list).deep_view()),
        forall|x: Seq<char>|
            final(list).deep_view().contains(x) <==> (old(list).deep_view().contains(x) || x
                == value@),
{
    let n = list.len();
    let mut i: usize = 0;
    while i < n && str_lt(list[i].as_str(), value.as_str())
        invariant
            n == list@.len(),
            0 <= i <= n,
            strictly_sorted_strings(list.deep_view()),
            forall|j: int| 0 <= j < i ==> lex_lt(#[trigger] list.deep_view()[j], value@),
        decreases n - i,
    {
        proof {
            assert(list.deep_view()[i as int] == list@[i as int]@);
        }
        i = i + 1;
    }
    if i < n {
        if str_eq(list[i].as_str(), value.as_str()) {
            proof {
                assert(list.deep_view()[i as int] == value@);
                assert(list.deep_view().contains(value@));
            }
            return ;
        }
    }
    proof {
        assert forall|j: int|
            i <= j < list.deep_view().len() implies lex_lt(
            value@,
            #[trigger] list.deep_view()[j],
        ) by {
            assert(list.deep_view()[i as int] == list@[i as int]@);
            lemma_lex_connex(value@, list.deep_view()[i as int]);
            if i < j {
                lemma_lex_trans(value@, list.deep_view()[i as int], list.deep_view()[j]);
            }
        }
    }
    let ghost old_view = list@;
    let ghost old_deep = list.deep_view();
    let ghost inserted_str = value;
    list.insert(i, value);
    proof {
        old_view.insert_ensures(i as int, inserted_str);
        old_deep.insert_ensures(i as int, inserted_str@);
        assert(list.deep_view() =~= old_deep.insert(i as int, inserted_str@));
        assert forall|p: int, q: int|
            0 <= p < q < list.deep_view().len() implies lex_lt(
            #[trigger] list.deep_view()[p],
            #[trigger] list.deep_view()[q],
        ) by {
            if q < i {
                assert(lex_lt(old_deep[p], old_deep[q]));
            } else if p > i {
                assert(lex_lt(old_deep[p - 1], old_deep[q - 1]));
            } else if p < i && q == i {
                assert(lex_lt(old_deep[p], inserted_str@));
            } else if p == i && q > i {
                assert(lex_lt(inserted_str@, old_deep[q - 1]));
            } else {
                assert(lex_lt(old_deep[p], old_deep[q - 1]));
            }
        }
        assert forall|x: Seq<char>|
            list.deep_view().contains(x) implies (old_deep.contains(x) || x == inserted_str@) by {
            let w = choose|w: int| 0 <= w < list.deep_view().len() && list.deep_view()[w] == x;
            if w < i {
                assert(old_deep[w] == x);
            } else if w > i {
                assert(old_deep[w - 1] == x);
            }
        }
        assert forall|x: Seq<char>|
            (old_deep.contains(x) || x == inserted_str@) implies list.deep_view().contains(x) by {
            if old_deep.contains(x) {
                let w = choose|w: int| 0 <= w < old_deep.len() && old_deep[w] == x;
                if w < i {
                    assert(list.deep_view()[w] == x);
                } else {
                    assert(list.deep_view()[w + 1] == x);
                }
            } else {
                assert(list.deep_view()[i as int] == inserted_str@);
            }
        }
    }
}

/// A separator for `split_list`: a comma or ASCII whitespace.
pub open spec fn is_sep_char(c: char) -> bool {
    c == ',' || is_space_char(c)
}

/// The tokens of `s` given a partial token `cur` carried in from the left:
/// maximal runs of non-separator characters, in order.
pub open spec fn split_tokens(s: Seq<char>, cur: Seq<char>) -> Seq<Seq<char>>
    decreases s.len(),
{
    if s.len() == 0 {
        if cur.len() == 0 {
            Seq::empty()
        } else {
            seq![cur]
        }
    } else if is_sep_char(s[0]) {
        if cur.len() == 0 {
            split_tokens(s.drop_first(), Seq::empty())
        } else {
            seq![cur] + split_tokens(s.drop_first(), Seq::empty())
        }
    } else {
        split_tokens(s.drop_first(), cur.push(s[0]))
    }
}

/// The maximal runs of non-separator characters of `s`, in order.
pub open spec fn spec_split_list(s: Seq<char>) -> Seq<Seq<char>> {
    split_tokens(s, Seq::empty())
}

/// Split `value` at commas and whitespace, dropping empty entries: the result
/// is the list of maximal runs of non-separator characters, in order.
pub fn split_list(value: &str) -> (r: Vec<String>)
    ensures
        r.deep_view() == spec_split_list(value@),
{
    let n = value.unicode_len();
    let mut result: Vec<String> = Vec::new();
    let mut cur = String::new();
    let mut i: usize = 0;
    proof {
        assert(value@.skip(0) =~= value@);
        assert(result.deep_view() + split_tokens(value@, cur@) =~= spec_split_list(value@));
    }
    while i < n
        invariant
            n == value@.len(),
            0 <= i <= n,
            result.deep_view() + split_tokens(value@.skip(i as int), cur@) == spec_split_list(
                value@,
            ),
        decreases n - i,
    {
        let c = value.get_char(i);
        proof {
            assert(value@.skip(i as int).drop_first() =~= value@.skip(i + 1));
            assert(value@.skip(i as int)[0] == value@[i as int]);
        }
        if c == ',' || space_char(c) {
            if !cur.as_str().is_empty() {
                let ghost old_result = result.deep_view();
                let ghost old_cur = cur@;
                result.push(cur);
                cur = String::new();
                proof {
                    assert(result.deep_view() =~= old_result.push(old_cur));
                    assert(old_result + (seq![old_cur] + split_tokens(
                        value@.skip(i + 1),
                        Seq::empty(),
                    )) =~= result.deep_view() + split_tokens(value@.skip(i + 1), cur@));
                }
            } else {
                proof {
                    assert(cur@ =~= Seq::<char>::empty());
                }
            }
        } else {
            let ghost old_cur = cur@;
            let piece = value.substring_char(i, i + 1);
            cur.append(piece);
            proof {
                assert(piece@ =~= seq![value@[i as int]]);
                assert(cur@ =~= old_cur.push(value@[i as int]));
            }
        }
        i = i + 1;
    }
    proof {
        assert(value@.skip(n as int) =~= Seq::<char>::empty());
    }
    if !cur.as_str().is_empty() {
        let ghost old_result = result.deep_view();
        let ghost old_cur = cur@;
        result.push(cur);
        proof {
            assert(result.deep_view() =~= old_result.push(old_cur));
            assert(old_result.push(old_cur) =~= old_result + seq![old_cur]);
        }
    }
    result
}

} // verus!
