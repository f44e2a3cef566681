//! Text operations that the settings reader and the classifier share.
use vstd::prelude::*;

verus! {

/// The lower-case form of a string, as `str::to_lowercase` gives it.
pub uninterp spec fn lower_of(s: Seq<char>) -> Seq<char>;

/// Relies on `str::to_lowercase`: the result depends on the characters alone.
#[verifier::external_body]
pub(crate) fn lowercase(s: &str) -> (r: String)
    ensures
        r@ == lower_of(s@),
{
    s.to_lowercase()
}

/// A string without its leading and trailing whitespace, as `str::trim` gives it.
pub uninterp spec fn trim_of(s: Seq<char>) -> Seq<char>;

/// Relies on `str::trim`: the result depends on the characters alone.
#[verifier::external_body]
pub(crate) fn trim(s: &str) -> (r: String)
    ensures
        r@ == trim_of(s@),
{
    s.trim().to_string()
}

/// The character views of a sequence of strings.
pub open spec fn views(v: Seq<String>) -> Seq<Seq<char>> {
    v.map_values(|s: String| s@)
}

/// The pieces of `s` between occurrences of `sep`, in order; there is always one
/// more piece than there are separators.
pub open spec fn split_on(s: Seq<char>, sep: char) -> Seq<Seq<char>>
    decreases s.len(),
{
    if s.len() == 0 {
        seq![Seq::empty()]
    } else {
        let prev = split_on(s.drop_last(), sep);
        if s.last() == sep {
            prev.push(Seq::empty())
        } else {
            prev.update(prev.len() - 1, prev.last().push(s.last()))
        }
    }
}

proof fn lemma_split_nonempty(s: Seq<char>, sep: char)
    ensures
        split_on(s, sep).len() >= 1,
    decreases s.len(),
{
    if s.len() > 0 {
        lemma_split_nonempty(s.drop_last(), sep);
    }
}

/// The pieces of `s` between occurrences of `sep`.
pub fn split_on_char(s: &str, sep: char) -> (r: Vec<String>)
    ensures
        views(r@) == split_on(s@, sep),
{
    let n = s.unicode_len();
    let mut pieces: Vec<String> = Vec::new();
    let mut start: usize = 0;
    let mut i: usize = 0;
    proof {
        assert(views(pieces@).push(s@.subrange(0, 0)) =~~= split_on(s@.subrange(0, 0), sep));
    }
    while i < n
        invariant
            n == s@.len(),
            start <= i <= n,
            views(pieces@).push(s@.subrange(start as int, i as int)) == split_on(
                s@.subrange(0, i as int),
                sep,
            ),
        decreases n - i,
    {
        let c = s.get_char(i);
        proof {
            assert(s@.subrange(0, i + 1).drop_last() =~= s@.subrange(0, i as int));
            assert(s@.subrange(0, i + 1).last() == c);
            lemma_split_nonempty(s@.subrange(0, i as int), sep);
        }
        if c == sep {
            pieces.push(String::from_str(s.substring_char(start, i)));
            start = i + 1;
            proof {
                assert(views(pieces@) =~= split_on(s@.subrange(0, i as int), sep));
                assert(views(pieces@).push(s@.subrange(start as int, i + 1)) =~~= split_on(
                    s@.subrange(0, i + 1),
                    sep,
                ));
            }
        } else {
            proof {
                let prev = split_on(s@.subrange(0, i as int), sep);
                assert(s@.subrange(start as int, i + 1) =~= s@.subrange(start as int, i as int).push(c));
                assert(views(pieces@).push(s@.subrange(start as int, i + 1)) =~= prev.update(
                    prev.len() - 1,
                    prev.last().push(c),
                ));
            }
        }
        i = i + 1;
    }
    pieces.push(String::from_str(s.substring_char(start, n)));
    proof {
        assert(s@.subrange(0, n as int) =~= s@);
        assert(views(pieces@) =~= split_on(s@, sep));
    }
    pieces
}

/// `key` followed by the rest of `line`, or `None` when `line` does not start
/// with `key`.
pub fn strip_key(line: &str, key: &str) -> (r: Option<String>)
    ensures
        key@.is_prefix_of(line@) <==> r is Some,
        r matches Some(rest) ==> rest@ == line@.skip(key@.len() as int),
{
    let n = line.unicode_len();
    let k = key.unicode_len();
    if k > n {
        return None;
    }
    let mut i: usize = 0;
    while i < k
        invariant
            k == key@.len(),
            n == line@.len(),
            k <= n,
            i <= k,
            forall|j: int| 0 <= j < i ==> key@[j] == line@[j],
        decreases k - i,
    {
        if key.get_char(i) != line.get_char(i) {
            return None;
        }
        i = i + 1;
    }
    proof {
        assert(key@ =~= line@.subrange(0, k as int));
    }
    Some(String::from_str(line.substring_char(k, n)))
}

/// `c` is a bracket of a list.
pub open spec fn is_bracket(c: char) -> bool {
    c == '[' || c == ']'
}

/// `s` without its leading brackets.
pub open spec fn strip_front(s: Seq<char>) -> Seq<char>
    decreases s.len(),
{
    if s.len() > 0 && is_bracket(s[0]) {
        strip_front(s.drop_first())
    } else {
        s
    }
}

/// `s` without its trailing brackets.
pub open spec fn strip_back(s: Seq<char>) -> Seq<char>
    decreases s.len(),
{
    if s.len() > 0 && is_bracket(s.last()) {
        strip_back(s.drop_last())
    } else {
        s
    }
}

proof fn lemma_strip_front(s: Seq<char>, i: int)
    requires
        0 <= i <= s.len(),
        forall|j: int| 0 <= j < i ==> is_bracket(#[trigger] s[j]),
    ensures
        strip_front(s) == strip_front(s.skip(i)),
    decreases i,
{
    if i > 0 {
        assert(s.drop_first().skip(i - 1) =~= s.skip(i));
        lemma_strip_front(s.drop_first(), i - 1);
    } else {
        assert(s.skip(0) =~= s);
    }
}

proof fn lemma_strip_back(s: Seq<char>, e: int)
    requires
        0 <= e <= s.len(),
        forall|j: int| e <= j < s.len() ==> is_bracket(#[trigger] s[j]),
    ensures
        strip_back(s) == strip_back(s.take(e)),
    decreases s.len() - e,
{
    if e < s.len() {
        assert(s.drop_last().take(e) =~= s.take(e));
        lemma_strip_back(s.drop_last(), e);
    } else {
        assert(s.take(e) =~= s);
    }
}

/// `s` without its leading and trailing brackets.
pub fn strip_brackets(s: &str) -> (r: String)
    ensures
        r@ == strip_back(strip_front(s@)),
{
    let n = s.unicode_len();
    let mut b: usize = 0;
    while b < n && (s.get_char(b) == '[' || s.get_char(b) == ']')
        invariant
            n == s@.len(),
            b <= n,
            forall|j: int| 0 <= j < b ==> is_bracket(#[trigger] s@[j]),
        decreases n - b,
    {
        b = b + 1;
    }
    proof {
        lemma_strip_front(s@, b as int);
        assert(b == n || !is_bracket(s@.skip(b as int)[0]));
    }
    let ghost front = s@.skip(b as int);
    let mut e: usize = n;
    while e > b && (s.get_char(e - 1) == '[' || s.get_char(e - 1) == ']')
        invariant
            n == s@.len(),
            b <= e <= n,
            front == s@.skip(b as int),
            forall|j: int| e - b <= j < front.len() ==> is_bracket(#[trigger] front[j]),
        decreases e - b,
    {
        assert(front[e - 1 - b] == s@[e - 1]);
        e = e - 1;
    }
    proof {
        assert(strip_front(s@) == front);
        assert(front.len() > 0 ==> !is_bracket(front[0]));
        lemma_strip_back(front, e - b);
        if e > b {
            assert(front.take(e - b).last() == s@[e - 1]);
        }
        assert(front.take(e - b) =~= s@.subrange(b as int, e as int));
    }
    String::from_str(s.substring_char(b, e))
}

/// The items of a bracketed, comma-separated list, each trimmed.
pub open spec fn list_items(s: Seq<char>) -> Seq<Seq<char>> {
    trimmed_all(split_on(strip_back(strip_front(s)), ','))
}

/// Each string of `s`, trimmed.
pub open spec fn trimmed_all(s: Seq<Seq<char>>) -> Seq<Seq<char>> {
    s.map_values(|p: Seq<char>| trim_of(p))
}

/// The items of a bracketed, comma-separated list such as `[--a=1, --b]`, each
/// trimmed.
pub fn parse_list(s: &str) -> (r: Vec<String>)
    ensures
        views(r@) == list_items(s@),
{
    let inner = strip_brackets(s);
    let pieces = split_on_char(inner.as_str(), ',');
    let mut items: Vec<String> = Vec::new();
    let mut i: usize = 0;
    while i < pieces.len()
        invariant
            i <= pieces@.len(),
            views(pieces@) == split_on(inner@, ','),
            items@.len() == i,
            views(items@) == trimmed_all(views(pieces@).subrange(0, i as int)),
        decreases pieces@.len() - i,
    {
        let ghost prev_items = items@;
        items.push(trim(pieces[i].as_str()));
        proof {
            assert(views(pieces@)[i as int] == pieces@[i as int]@);
            assert forall|k: int| 0 <= k < i + 1 implies #[trigger] views(items@)[k] == trimmed_all(
                views(pieces@).subrange(0, i + 1),
            )[k] by {
                if k < i {
                    assert(views(items@)[k] == views(prev_items)[k]);
                }
            }
            assert(views(items@) =~= trimmed_all(views(pieces@).subrange(0, i + 1)));
        }
        i = i + 1;
    }
    proof {
        assert(views(pieces@).subrange(0, pieces@.len() as int) =~= views(pieces@));
        assert(views(items@) =~= trimmed_all(views(pieces@)));
    }
    items
}

} // verus!
