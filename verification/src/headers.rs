//! Response headers: a list of named values in which each name occurs once,
//! as `http::HeaderMap` keeps them when values are only inserted.

use vstd::prelude::*;

verus! {

broadcast use vstd::string::group_string_axioms;

/// A character of a header name as `http::HeaderName` keeps it: a token
/// character, letters in lower case.
pub open spec fn name_char(c: char) -> bool {
    let u = c as u32;
    ||| 97 <= u <= 122
    ||| 48 <= u <= 57
    ||| u == 33 || u == 35 || u == 36 || u == 37 || u == 38 || u == 39
    ||| u == 42 || u == 43 || u == 45 || u == 46 || u == 94 || u == 95
    ||| u == 96 || u == 124 || u == 126
}

/// The text of a header name: non-empty, of token characters in lower case.
pub open spec fn header_name_ok(s: Seq<char>) -> bool {
    s.len() > 0 && forall|i: int| 0 <= i < s.len() ==> name_char(#[trigger] s[i])
}

/// A character that a header value may hold: a tab, or any character from
/// the space on but DEL.
pub open spec fn value_char(c: char) -> bool {
    c as u32 == 9 || (c as u32 >= 32 && c as u32 != 127)
}

/// Text that `http::HeaderValue` accepts as a value.
pub open spec fn header_value_ok(s: Seq<char>) -> bool {
    forall|i: int| 0 <= i < s.len() ==> value_char(#[trigger] s[i])
}

/// A list of headers: names and values.
pub type HeaderSeq = Seq<(Seq<char>, Seq<char>)>;

/// Each name occurs at most once.
pub open spec fn names_distinct(es: HeaderSeq) -> bool {
    forall|i: int, j: int| 0 <= i < j < es.len() ==> es[i].0 != es[j].0
}

/// Every name and value is one that `http` accepts.
pub open spec fn entries_ok(es: HeaderSeq) -> bool {
    forall|i: int| 0 <= i < es.len() ==> header_name_ok(#[trigger] es[i].0) && header_value_ok(es[i].1)
}

/// `k` names some header of the list.
pub open spec fn has_name(es: HeaderSeq, k: Seq<char>) -> bool {
    exists|i: int| 0 <= i < es.len() && es[i].0 == k
}

/// The place of the header named `k`.
pub open spec fn name_position(es: HeaderSeq, k: Seq<char>) -> int {
    choose|i: int| 0 <= i < es.len() && es[i].0 == k
}

/// The value of the header named `k`, if there is one.
pub open spec fn header_lookup(es: HeaderSeq, k: Seq<char>) -> Option<Seq<char>> {
    if has_name(es, k) {
        Some(es[name_position(es, k)].1)
    } else {
        None
    }
}

/// The list after inserting `k: v`: a header of that name keeps its place
/// and takes the new value, otherwise the header is appended.
pub open spec fn header_insert(es: HeaderSeq, k: Seq<char>, v: Seq<char>) -> HeaderSeq {
    if has_name(es, k) {
        es.update(name_position(es, k), (k, v))
    } else {
        es.push((k, v))
    }
}

/// The list after inserting each header of `extra`, in order.
pub open spec fn headers_inserted(es: HeaderSeq, extra: HeaderSeq) -> HeaderSeq
    decreases extra.len(),
{
    if extra.len() == 0 {
        es
    } else {
        let k = extra.last().0;
        let v = extra.last().1;
        header_insert(headers_inserted(es, extra.drop_last()), k, v)
    }
}

/// The views of a list of headers.
pub open spec fn entries_view(v: Seq<(String, String)>) -> HeaderSeq {
    v.map_values(|e: (String, String)| (e.0@, e.1@))
}

/// Response headers, each name at most once.
#[derive(Debug)]
pub struct Headers {
    entries: Vec<(String, String)>,
}

impl View for Headers {
    type V = HeaderSeq;

    closed spec fn view(&self) -> HeaderSeq {
        entries_view(self.entries@)
    }
}

impl Headers {
    /// The names are distinct and valid, the values valid.
    #[verifier::type_invariant]
    spec fn wf(&self) -> bool {
        names_distinct(self@) && entries_ok(self@)
    }

    /// An empty list.
    pub fn new() -> (r: Self)
        ensures
            r@ == Seq::<(Seq<char>, Seq<char>)>::empty(),
    {
        let r = Headers { entries: Vec::new() };
        assert(r@ =~= Seq::<(Seq<char>, Seq<char>)>::empty());
        r
    }

    /// The headers, in order: each name at most once, names and values
    /// such as `http` accepts.
    pub fn entries(&self) -> (r: &Vec<(String, String)>)
        ensures
            entries_view(r@) == self@,
            names_distinct(self@),
            entries_ok(self@),
    {
        proof {
            use_type_invariant(self);
        }
        &self.entries
    }

    /// The place of the header named `k`, if there is one.
    fn find(&self, k: &String) -> (r: Option<usize>)
        ensures
            match r {
                Some(i) => i < self@.len() && self@[i as int].0 == k@,
                None => !has_name(self@, k@),
            },
    {
        let mut i: usize = 0;
        while i < self.entries.len()
            invariant
                i <= self.entries@.len(),
                forall|j: int| 0 <= j < i ==> self.entries@[j].0@ != k@,
            decreases self.entries@.len() - i,
        {
            if self.entries[i].0 == *k {
                assert(self@[i as int] == (self.entries@[i as int].0@, self.entries@[i as int].1@));
                return Some(i);
            }
            i = i + 1;
        }
        proof {
            assert forall|j: int| 0 <= j < self@.len() implies self@[j].0 != k@ by {
                assert(self@[j] == (self.entries@[j].0@, self.entries@[j].1@));
            }
        }
        None
    }

    /// Inserts `k: v`, replacing the value of a header of that name.
    pub fn insert(&mut self, k: &str, v: &str)
        requires
            header_name_ok(k@),
            header_value_ok(v@),
        ensures
            final(self)@ == header_insert(old(self)@, k@, v@),
            names_distinct(final(self)@),
            entries_ok(final(self)@),
    {
        proof {
            use_type_invariant(&*self);
        }
        let ghost before = self@;
        let ghost after = header_insert(before, k@, v@);
        proof {
            lemma_header_insert(before, k@, v@, k@);
            assert forall|j: int| 0 <= j < after.len() implies header_name_ok(#[trigger] after[j].0) && header_value_ok(after[j].1) by {
                if has_name(before, k@) {
                    if j != name_position(before, k@) {
                        assert(after[j] == before[j]);
                    }
                } else if j < before.len() {
                    assert(after[j] == before[j]);
                }
            }
        }
        let pos = self.find(&String::from_str(k));
        let mut es: Vec<(String, String)> = Vec::new();
        proof {
            assert(entries_view(es@) =~= Seq::<(Seq<char>, Seq<char>)>::empty());
        }
        std::mem::swap(&mut es, &mut self.entries);
        assert(entries_view(es@) == before);
        match pos {
            Some(i) => {
                es.set(i, (String::from_str(k), String::from_str(v)));
                proof {
                    assert(has_name(before, k@));
                    assert(name_position(before, k@) == i as int);
                    assert(entries_view(es@) =~= before.update(i as int, (k@, v@)));
                }
            },
            None => {
                es.push((String::from_str(k), String::from_str(v)));
                proof {
                    assert(entries_view(es@) =~= before.push((k@, v@)));
                }
            },
        }
        self.entries = es;
    }

    /// Inserts each header of `extra`, in order.
    pub fn insert_all(&mut self, extra: &Headers)
        ensures
            final(self)@ == headers_inserted(old(self)@, extra@),
            names_distinct(final(self)@),
            entries_ok(final(self)@),
    {
        proof {
            use_type_invariant(&*self);
            use_type_invariant(extra);
        }
        let ghost start = self@;
        let mut i: usize = 0;
        assert(extra@.take(0) =~= Seq::<(Seq<char>, Seq<char>)>::empty());
        while i < extra.entries.len()
            invariant
                i <= extra@.len(),
                entries_ok(extra@),
                names_distinct(self@),
                entries_ok(self@),
                self@ == headers_inserted(start, extra@.take(i as int)),
            decreases extra@.len() - i,
        {
            assert(extra@.take(i + 1).drop_last() =~= extra@.take(i as int));
            assert(extra@[i as int] == (extra.entries@[i as int].0@, extra.entries@[i as int].1@));
            assert(header_name_ok(extra@[i as int].0));
            self.insert(extra.entries[i].0.as_str(), extra.entries[i].1.as_str());
            i = i + 1;
        }
        assert(extra@.take(extra@.len() as int) =~= extra@);
    }
}

/// After inserting `k: v`, the header named `k` holds `v` and every other
/// header keeps its value; the names stay distinct.
pub proof fn lemma_header_insert(es: HeaderSeq, k: Seq<char>, v: Seq<char>, q: Seq<char>)
    requires
        names_distinct(es),
    ensures
        names_distinct(header_insert(es, k, v)),
        header_lookup(header_insert(es, k, v), k) == Some(v),
        q != k ==> header_lookup(header_insert(es, k, v), q) == header_lookup(es, q),
{
    let r = header_insert(es, k, v);
    if has_name(es, k) {
        let p = name_position(es, k);
        assert(r[p].0 == k);
        assert(has_name(r, k));
        let pr = name_position(r, k);
        assert(pr == p);
        if has_name(es, q) && q != k {
            let pq = name_position(es, q);
            assert(r[pq].0 == q);
            assert(has_name(r, q));
        }
        if has_name(r, q) && q != k {
            let pq = name_position(r, q);
            assert(es[pq].0 == q);
            assert(has_name(es, q));
        }
    } else {
        assert(r[es.len() as int].0 == k);
        assert(has_name(r, k));
        if has_name(es, q) {
            let pq = name_position(es, q);
            assert(r[pq].0 == q);
            assert(has_name(r, q));
        }
        if has_name(r, q) && q != k {
            let pq = name_position(r, q);
            assert(es[pq].0 == q);
            assert(has_name(es, q));
        }
    }
}

/// In a list with distinct names, the value found under the name of a
/// header is that header's value.
pub proof fn lemma_lookup_at(es: HeaderSeq, i: int)
    requires
        names_distinct(es),
        0 <= i < es.len(),
    ensures
        header_lookup(es, es[i].0) == Some(es[i].1),
{
    assert(has_name(es, es[i].0));
    let p = name_position(es, es[i].0);
    assert(p == i);
}

/// Inserting headers of distinct names one after another keeps the names
/// distinct; each inserted header is found with its value, and every other
/// name keeps the value it had.
pub proof fn lemma_headers_inserted(es: HeaderSeq, extra: HeaderSeq, q: Seq<char>)
    requires
        names_distinct(es),
        names_distinct(extra),
    ensures
        names_distinct(headers_inserted(es, extra)),
        header_lookup(headers_inserted(es, extra), q) == if has_name(extra, q) {
            header_lookup(extra, q)
        } else {
            header_lookup(es, q)
        },
    decreases extra.len(),
{
    if extra.len() > 0 {
        let rest = extra.drop_last();
        let n = extra.len() - 1;
        let (k, v) = extra.last();
        assert(names_distinct(rest));
        lemma_headers_inserted(es, rest, q);
        lemma_headers_inserted(es, rest, k);
        lemma_header_insert(headers_inserted(es, rest), k, v, q);
        if q == k {
            lemma_lookup_at(extra, n);
        } else {
            if has_name(extra, q) {
                let p = name_position(extra, q);
                assert(p != n);
                assert(rest[p].0 == q);
                lemma_lookup_at(rest, p);
                lemma_lookup_at(extra, p);
            }
            if has_name(rest, q) {
                let p = name_position(rest, q);
                assert(extra[p].0 == q);
            }
        }
    }
}

} // verus!

verus! {

/// A header set twice is sent once, with the value it was given last, in
/// the place it first took.
pub proof fn lemma_header_insert_twice(es: HeaderSeq, k: Seq<char>, v1: Seq<char>, v2: Seq<char>)
    requires
        names_distinct(es),
    ensures
        header_insert(header_insert(es, k, v1), k, v2) == header_insert(es, k, v2),
{
    let once = header_insert(es, k, v1);
    if has_name(es, k) {
        let p = name_position(es, k);
        assert(once[p].0 == k);
        assert(has_name(once, k));
        lemma_header_insert(es, k, v1, k);
        let q = name_position(once, k);
        assert(q == p) by {
            if q != p {
                assert(once[q].0 == once[p].0);
            }
        }
        assert(header_insert(once, k, v2) =~= header_insert(es, k, v2));
    } else {
        let n = es.len() as int;
        assert(once[n].0 == k);
        assert(has_name(once, k));
        let q = name_position(once, k);
        assert(q == n) by {
            if q != n {
                assert(es[q].0 == k);
            }
        }
        assert(header_insert(once, k, v2) =~= header_insert(es, k, v2));
    }
}

} // verus!
