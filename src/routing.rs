use vstd::prelude::*;
use vstd::string::*;

verus! {

/// The routing key, and the queue name, of an organization and a channel kind:
/// `<org>.<kind>`.
pub open spec fn key_of(org: Seq<char>, kind: Seq<char>) -> Seq<char> {
    org + seq!['.'] + kind
}

/// The words of a routing key or a binding pattern: the text between dots.
/// A key with `n` dots has `n + 1` words, some of which may be empty.
pub open spec fn split_words(s: Seq<char>) -> Seq<Seq<char>>
    decreases s.len(),
{
    if s.len() == 0 {
        seq![Seq::empty()]
    } else {
        let w = split_words(s.drop_last());
        if s.last() == '.' {
            w.push(Seq::empty())
        } else {
            w.update(w.len() - 1, w.last().push(s.last()))
        }
    }
}

/// Topic matching on words: `*` stands for exactly one word, `#` for zero or
/// more words, any other word only for itself.
pub open spec fn words_match(p: Seq<Seq<char>>, k: Seq<Seq<char>>) -> bool
    decreases p.len(), k.len(),
{
    if p.len() == 0 {
        k.len() == 0
    } else if p[0] == seq!['#'] {
        words_match(p.drop_first(), k) || (k.len() > 0 && words_match(p, k.drop_first()))
    } else {
        k.len() > 0 && (p[0] == seq!['*'] || p[0] == k[0]) && words_match(
            p.drop_first(),
            k.drop_first(),
        )
    }
}

/// Whether a topic exchange delivers a message with routing key `key` to a
/// queue bound with `pattern`.
pub open spec fn topic_match(pattern: Seq<char>, key: Seq<char>) -> bool {
    words_match(split_words(pattern), split_words(key))
}

/// A segment that a key can be built from and that matches only itself.
pub open spec fn plain_segment(s: Seq<char>) -> bool {
    &&& forall|i: int| 0 <= i < s.len() ==> s[i] != '.'
    &&& s != seq!['*']
    &&& s != seq!['#']
}

/// The words held as character vectors, as text.
pub open spec fn words_view(v: Seq<Vec<char>>) -> Seq<Seq<char>> {
    v.map_values(|w: Vec<char>| w@)
}

/// Builds `<org>.<kind>`, the routing key that messages of `kind` for `org`
/// are published under.
pub fn routing_key(org: &str, kind: &str) -> (r: String)
    ensures
        r@ == key_of(org@, kind@),
{
    let mut s = String::from_str(org);
    let dot = ".";
    proof {
        reveal_strlit(".");
    }
    s.append(dot);
    s.append(kind);
    s
}

/// The durable queue that holds the messages of `kind` for `org`; it is named
/// like the routing key.
pub fn queue_name(org: &str, kind: &str) -> (r: String)
    ensures
        r@ == key_of(org@, kind@),
{
    routing_key(org, kind)
}

proof fn lemma_split_nonempty(s: Seq<char>)
    ensures
        split_words(s).len() >= 1,
    decreases s.len(),
{
    if s.len() > 0 {
        lemma_split_nonempty(s.drop_last());
    }
}

fn split_into_words(s: &str) -> (r: Vec<Vec<char>>)
    ensures
        words_view(r@) == split_words(s@),
{
    let n = s.unicode_len();
    let mut words: Vec<Vec<char>> = Vec::new();
    words.push(Vec::new());
    let mut i: usize = 0;
    proof {
        assert(s@.take(0) =~= Seq::<char>::empty());
        assert(words_view(words@) =~= seq![Seq::<char>::empty()]);
    }
    while i < n
        invariant
            n == s@.len(),
            i <= n,
            words.len() >= 1,
            words_view(words@) == split_words(s@.take(i as int)),
        decreases n - i,
    {
        let c = s.get_char(i);
        let ghost before = words_view(words@);
        proof {
            assert(s@.take(i + 1).drop_last() =~= s@.take(i as int));
            assert(s@.take(i + 1).last() == c);
        }
        if c == '.' {
            words.push(Vec::new());
            proof {
                assert(words_view(words@) =~= before.push(Seq::empty()));
            }
        } else {
            let mut last = words.pop().unwrap();
            last.push(c);
            words.push(last);
            proof {
                assert(words_view(words@) =~= before.update(
                    before.len() - 1,
                    before.last().push(c),
                ));
            }
        }
        i += 1;
    }
    proof {
        assert(s@.take(n as int) =~= s@);
    }
    words
}

fn same_word(a: &Vec<char>, b: &Vec<char>) -> (r: bool)
    ensures
        r == (a@ == b@),
{
    if a.len() != b.len() {
        return false;
    }
    let mut i: usize = 0;
    while i < a.len()
        invariant
            a.len() == b.len(),
            i <= a.len(),
            forall|j: int| 0 <= j < i ==> a@[j] == b@[j],
        decreases a.len() - i,
    {
        if a[i] != b[i] {
            return false;
        }
        i += 1;
    }
    assert(a@ =~= b@);
    true
}

fn is_single(w: &Vec<char>, c: char) -> (r: bool)
    ensures
        r == (w@ == seq![c]),
{
    if w.len() == 1 && w[0] == c {
        assert(w@ =~= seq![c]);
        true
    } else {
        false
    }
}

fn match_from(p: &Vec<Vec<char>>, i: usize, k: &Vec<Vec<char>>, j: usize) -> (r: bool)
    requires
        i <= p.len(),
        j <= k.len(),
    ensures
        r == words_match(words_view(p@).skip(i as int), words_view(k@).skip(j as int)),
    decreases p.len() - i, k.len() - j,
{
    let ghost ps = words_view(p@).skip(i as int);
    let ghost ks = words_view(k@).skip(j as int);
    proof {
        if i < p.len() {
            assert(ps.drop_first() =~= words_view(p@).skip(i + 1));
            assert(ps[0] == p@[i as int]@);
        }
        if j < k.len() {
            assert(ks.drop_first() =~= words_view(k@).skip(j + 1));
            assert(ks[0] == k@[j as int]@);
        }
    }
    if i == p.len() {
        j == k.len()
    } else if is_single(&p[i], '#') {
        if match_from(p, i + 1, k, j) {
            true
        } else if j < k.len() {
            match_from(p, i, k, j + 1)
        } else {
            false
        }
    } else if j < k.len() && (is_single(&p[i], '*') || same_word(&p[i], &k[j])) {
        match_from(p, i + 1, k, j + 1)
    } else {
        false
    }
}

/// Whether a topic exchange routes a message published under `key` to a
/// queue bound with `pattern`.
pub fn topic_matches(pattern: &str, key: &str) -> (r: bool)
    ensures
        r == topic_match(pattern@, key@),
{
    let p = split_into_words(pattern);
    let k = split_into_words(key);
    proof {
        assert(words_view(p@).skip(0) =~= words_view(p@));
        assert(words_view(k@).skip(0) =~= words_view(k@));
    }
    match_from(&p, 0, &k, 0)
}

proof fn lemma_split_dotless_suffix(x: Seq<char>, b: Seq<char>)
    requires
        forall|i: int| 0 <= i < b.len() ==> b[i] != '.',
    ensures
        split_words(x + b) == split_words(x).update(
            split_words(x).len() - 1,
            split_words(x).last() + b,
        ),
    decreases b.len(),
{
    lemma_split_nonempty(x);
    let w = split_words(x);
    if b.len() == 0 {
        assert(x + b =~= x);
        assert(w.last() + b =~= w.last());
        assert(w.update(w.len() - 1, w.last() + b) =~= w);
    } else {
        let b0 = b.drop_last();
        lemma_split_dotless_suffix(x, b0);
        assert((x + b).drop_last() =~= x + b0);
        assert((x + b).last() == b.last());
        assert((w.last() + b0).push(b.last()) =~= w.last() + b);
        let w0 = w.update(w.len() - 1, w.last() + b0);
        assert(w0.update(w0.len() - 1, w0.last().push(b.last())) =~= w.update(
            w.len() - 1,
            w.last() + b,
        ));
    }
}

proof fn lemma_split_key(org: Seq<char>, kind: Seq<char>)
    requires
        plain_segment(org),
        plain_segment(kind),
    ensures
        split_words(key_of(org, kind)) == seq![org, kind],
{
    let e = Seq::<char>::empty();
    lemma_split_dotless_suffix(e, org);
    assert(e + org =~= org);
    assert(e + org + seq!['.'] =~= org + seq!['.']);
    assert(seq![e].update(0, e + org) =~= seq![org]);
    assert((org + seq!['.']).drop_last() =~= org);
    assert(split_words(org + seq!['.']) == seq![org].push(e));
    lemma_split_dotless_suffix(org + seq!['.'], kind);
    assert(org + seq!['.'] + kind == key_of(org, kind));
    assert(seq![org].push(e).update(1, e + kind) =~= seq![org, kind]);
}

/// A message published under the key of one organization and channel kind
/// reaches a queue bound with the key of another pair as its pattern exactly
/// when the two pairs are equal: `org-1.email` never reaches `org-2.email`.
pub proof fn lemma_routing_exact(
    org: Seq<char>,
    kind: Seq<char>,
    bound_org: Seq<char>,
    bound_kind: Seq<char>,
)
    requires
        plain_segment(org),
        plain_segment(kind),
        plain_segment(bound_org),
        plain_segment(bound_kind),
    ensures
        topic_match(key_of(bound_org, bound_kind), key_of(org, kind)) <==> (org == bound_org
            && kind == bound_kind),
{
    lemma_split_key(org, kind);
    lemma_split_key(bound_org, bound_kind);
    let p = seq![bound_org, bound_kind];
    let k = seq![org, kind];
    assert(p.drop_first() =~= seq![bound_kind]);
    assert(k.drop_first() =~= seq![kind]);
    assert(seq![bound_kind].drop_first() =~= Seq::<Seq<char>>::empty());
    assert(seq![kind].drop_first() =~= Seq::<Seq<char>>::empty());
    reveal_with_fuel(words_match, 3);
}

} // verus!
