//! A request's query string: bare items in order, and named items grouped by
//! name in order of first appearance.

use vstd::prelude::*;

use crate::text::{pieces_on, split_on, str_eq, texts};

verus! {

/// Bare items (`a&b`) and named ones (`k=v&k=w`), each name once.
#[derive(Clone, Debug)]
pub struct Query {
    pub unnamed: Vec<String>,
    pub named: Vec<(String, Vec<String>)>,
}

pub open spec fn has_key(nv: Seq<(Seq<char>, Seq<Seq<char>>)>, key: Seq<char>) -> bool {
    exists|k: int| 0 <= k < nv.len() && (#[trigger] nv[k]).0 == key
}

pub open spec fn keys_distinct(nv: Seq<(Seq<char>, Seq<Seq<char>>)>) -> bool {
    forall|i: int, j: int| 0 <= i < nv.len() && 0 <= j < nv.len() && i != j ==> (#[trigger] nv[i]).0 != (#[trigger] nv[j]).0
}

/// The named items after adding `value` under `key`.
pub open spec fn named_insert(
    nv: Seq<(Seq<char>, Seq<Seq<char>>)>,
    key: Seq<char>,
    value: Seq<char>,
) -> Seq<(Seq<char>, Seq<Seq<char>>)> {
    if has_key(nv, key) {
        let k = choose|k: int| 0 <= k < nv.len() && (#[trigger] nv[k]).0 == key;
        nv.update(k, (key, nv[k].1.push(value)))
    } else {
        nv.push((key, seq![value]))
    }
}

/// The named items after making `value` the only one under `key`.
pub open spec fn named_replace(
    nv: Seq<(Seq<char>, Seq<Seq<char>>)>,
    key: Seq<char>,
    value: Seq<char>,
) -> Seq<(Seq<char>, Seq<Seq<char>>)> {
    if has_key(nv, key) {
        let k = choose|k: int| 0 <= k < nv.len() && (#[trigger] nv[k]).0 == key;
        nv.update(k, (key, seq![value]))
    } else {
        nv.push((key, seq![value]))
    }
}

impl Query {
    pub open spec fn named_view(&self) -> Seq<(Seq<char>, Seq<Seq<char>>)> {
        self.named@.map_values(|p: (String, Vec<String>)| (p.0@, texts(p.1@)))
    }

    pub open spec fn unnamed_view(&self) -> Seq<Seq<char>> {
        texts(self.unnamed@)
    }

    /// Each name appears once.
    pub open spec fn wf(&self) -> bool {
        keys_distinct(self.named_view())
    }

    pub fn new() -> (r: Query)
        ensures
            r.wf(),
            r.unnamed_view() == Seq::<Seq<char>>::empty(),
            r.named_view() == Seq::<(Seq<char>, Seq<Seq<char>>)>::empty(),
    {
        let q = Query { unnamed: Vec::new(), named: Vec::new() };
        assert(q.unnamed_view() =~= Seq::<Seq<char>>::empty());
        assert(q.named_view() =~= Seq::<(Seq<char>, Seq<Seq<char>>)>::empty());
        q
    }

    fn find_key(&self, key: &str) -> (r: Option<usize>)
        ensures
            r.is_some() ==> r.unwrap() < self.named@.len() && self.named_view()[r.unwrap() as int].0 == key@,
            r.is_none() ==> !has_key(self.named_view(), key@),
    {
        let mut i: usize = 0;
        while i < self.named.len()
            invariant
                0 <= i <= self.named@.len(),
                forall|j: int| 0 <= j < i ==> (#[trigger] self.named_view()[j]).0 != key@,
            decreases self.named@.len() - i,
        {
            if str_eq(self.named[i].0.as_str(), key) {
                return Some(i);
            }
            i += 1;
        }
        None
    }

    /// The first value named `key`.
    pub fn get_value(&self, key: &str) -> (r: Option<&str>)
        requires
            self.wf(),
        ensures
            r.is_some() == (has_key(self.named_view(), key@) && exists|k: int|
                0 <= k < self.named_view().len() && (#[trigger] self.named_view()[k]).0 == key@
                    && self.named_view()[k].1.len() > 0),
            r.is_some() ==> exists|k: int|
                0 <= k < self.named_view().len() && (#[trigger] self.named_view()[k]).0 == key@
                    && r.unwrap()@ == self.named_view()[k].1[0],
    {
        match self.find_key(key) {
            Some(k) => {
                if self.named[k].1.len() > 0 {
                    Some(self.named[k].1[0].as_str())
                } else {
                    None
                }
            },
            None => None,
        }
    }

    /// Every value named `key`.
    pub fn get_values(&self, key: &str) -> (r: Option<&Vec<String>>)
        requires
            self.wf(),
        ensures
            r.is_some() == has_key(self.named_view(), key@),
            r.is_some() ==> exists|k: int|
                0 <= k < self.named_view().len() && (#[trigger] self.named_view()[k]).0 == key@
                    && texts(r.unwrap()@) == self.named_view()[k].1,
    {
        match self.find_key(key) {
            Some(k) => Some(&self.named[k].1),
            None => None,
        }
    }

    /// Every value named `key`, to change in place; the name stays.
    pub fn get_values_mut(&mut self, key: &str) -> (r: Option<&mut Vec<String>>)
        ensures
            r.is_some() == has_key(old(self).named_view(), key@),
            r.is_none() ==> *final(self) == *old(self),
            r matches Some(v) ==> exists|k: int|
                0 <= k < old(self).named@.len() && (#[trigger] old(self).named_view()[k]).0 == key@ && *v == old(
                    self,
                ).named@[k].1 && final(self).named@ == old(self).named@.update(k, (old(self).named@[k].0, *final(v)))
                    && final(self).unnamed@ == old(self).unnamed@,
    {
        match self.find_key(key) {
            Some(k) => Some(&mut self.named[k].1),
            None => None,
        }
    }

    /// The first value named `key`, to change in place.
    pub fn get_value_mut(&mut self, key: &str) -> (r: Option<&mut String>)
        requires
            old(self).wf(),
        ensures
            r.is_none() ==> *final(self) == *old(self),
            r.is_some() == exists|k: int|
                0 <= k < old(self).named@.len() && (#[trigger] old(self).named_view()[k]).0 == key@
                    && old(self).named@[k].1@.len() > 0,
            r matches Some(s) ==> exists|k: int|
                0 <= k < old(self).named@.len() && (#[trigger] old(self).named_view()[k]).0 == key@ && *s == old(
                    self,
                ).named@[k].1@[0] && final(self).named@.len() == old(self).named@.len() && (forall|j: int|
                    0 <= j < old(self).named@.len() && j != k ==> #[trigger] final(self).named@[j] == old(
                        self,
                    ).named@[j]) && final(self).named@[k].0 == old(self).named@[k].0 && final(self).named@[k].1@
                    == old(self).named@[k].1@.update(0, *final(s)) && final(self).unnamed@ == old(self).unnamed@,
    {
        match self.find_key(key) {
            Some(k) => {
                if self.named[k].1.len() > 0 {
                    Some(&mut self.named[k].1[0])
                } else {
                    None
                }
            },
            None => None,
        }
    }

    /// Whether some value is named `key`.
    pub fn contains_key(&self, key: &str) -> (r: bool)
        ensures
            r == has_key(self.named_view(), key@),
    {
        self.find_key(key).is_some()
    }

    /// Whether `key` is a name or a bare item.
    pub fn contains(&self, key: &str) -> (r: bool)
        ensures
            r == (has_key(self.named_view(), key@) || self.unnamed_view().contains(key@)),
    {
        if self.find_key(key).is_some() {
            return true;
        }
        let mut i: usize = 0;
        while i < self.unnamed.len()
            invariant
                0 <= i <= self.unnamed@.len(),
                forall|j: int| 0 <= j < i ==> (#[trigger] self.unnamed_view()[j]) != key@,
            decreases self.unnamed@.len() - i,
        {
            if str_eq(self.unnamed[i].as_str(), key) {
                assert(self.unnamed_view()[i as int] == key@);
                return true;
            }
            i += 1;
        }
        false
    }

    /// The bare item at `index`.
    pub fn get(&self, index: usize) -> (r: Option<&str>)
        ensures
            r.is_some() == (index < self.unnamed@.len()),
            r.is_some() ==> r.unwrap()@ == self.unnamed_view()[index as int],
    {
        if index < self.unnamed.len() {
            Some(self.unnamed[index].as_str())
        } else {
            None
        }
    }

    /// The first bare item.
    pub fn first(&self) -> (r: Option<&str>)
        ensures
            r.is_some() == (self.unnamed@.len() > 0),
            r.is_some() ==> r.unwrap()@ == self.unnamed_view()[0],
    {
        self.get(0)
    }

    /// The bare item at `index`, to change in place.
    pub fn get_mut(&mut self, index: usize) -> (r: Option<&mut String>)
        ensures
            r.is_some() == (index < old(self).unnamed@.len()),
            r.is_none() ==> *final(self) == *old(self),
            r matches Some(s) ==> *s == old(self).unnamed@[index as int] && final(self).unnamed@ == old(
                self,
            ).unnamed@.update(index as int, *final(s)) && final(self).named@ == old(self).named@,
    {
        if index < self.unnamed.len() {
            Some(&mut self.unnamed[index])
        } else {
            None
        }
    }

    /// Adds `value` under `key`, after the values already there.
    pub fn insert(&mut self, key: String, value: String)
        requires
            old(self).wf(),
        ensures
            final(self).wf(),
            final(self).unnamed_view() == old(self).unnamed_view(),
            final(self).named_view() == named_insert(old(self).named_view(), key@, value@),
    {
        let ghost nv = self.named_view();
        match self.find_key(key.as_str()) {
            Some(k) => {
                let ghost list = nv[k as int].1;
                self.named[k].1.push(value);
                assert(texts(self.named@[k as int].1@) =~= list.push(value@));
                assert(self.named_view() =~= nv.update(k as int, (key@, list.push(value@))));
                proof {
                    let c = choose|c: int| 0 <= c < nv.len() && (#[trigger] nv[c]).0 == key@;
                    assert(c == k);
                }
            },
            None => {
                let mut values: Vec<String> = Vec::new();
                values.push(value);
                assert(texts(values@) =~= seq![value@]);
                self.named.push((key, values));
                assert(self.named_view() =~= nv.push((key@, seq![value@])));
            },
        }
    }

    /// Takes out every value named `key`.
    pub fn remove(&mut self, key: &str) -> (r: Option<Vec<String>>)
        requires
            old(self).wf(),
        ensures
            final(self).wf(),
            final(self).unnamed_view() == old(self).unnamed_view(),
            r.is_some() == has_key(old(self).named_view(), key@),
            r.is_none() ==> final(self).named_view() == old(self).named_view(),
            r.is_some() ==> exists|k: int|
                0 <= k < old(self).named_view().len() && (#[trigger] old(self).named_view()[k]).0 == key@
                    && texts(r.unwrap()@) == old(self).named_view()[k].1
                    && final(self).named_view() == old(self).named_view().remove(k),
    {
        let ghost nv = self.named_view();
        match self.find_key(key) {
            Some(k) => {
                let (_, values) = self.named.remove(k);
                assert(self.named_view() =~= nv.remove(k as int));
                Some(values)
            },
            None => None,
        }
    }

    /// Takes out the last bare item equal to `value`.
    pub fn erase(&mut self, value: &str) -> (r: Option<String>)
        ensures
            final(self).named_view() == old(self).named_view(),
            final(self).named@ == old(self).named@,
            r.is_some() == old(self).unnamed_view().contains(value@),
            r.is_none() ==> final(self).unnamed_view() == old(self).unnamed_view(),
            r.is_some() ==> r.unwrap()@ == value@ && exists|i: int|
                0 <= i < old(self).unnamed@.len() && (#[trigger] old(self).unnamed_view()[i]) == value@
                    && (forall|j: int| i < j < old(self).unnamed@.len() ==> (#[trigger] old(self).unnamed_view()[j]) != value@)
                    && final(self).unnamed_view() == old(self).unnamed_view().remove(i),
    {
        let ghost uv = self.unnamed_view();
        let mut index: Option<usize> = None;
        let mut i: usize = 0;
        while i < self.unnamed.len()
            invariant
                0 <= i <= self.unnamed@.len(),
                uv == self.unnamed_view(),
                index.is_none() ==> forall|j: int| 0 <= j < i ==> (#[trigger] uv[j]) != value@,
                index.is_some() ==> index.unwrap() < i && uv[index.unwrap() as int] == value@
                    && forall|j: int| index.unwrap() < j < i ==> (#[trigger] uv[j]) != value@,
            decreases self.unnamed@.len() - i,
        {
            if str_eq(self.unnamed[i].as_str(), value) {
                index = Some(i);
            }
            i += 1;
        }
        match index {
            Some(k) => {
                let removed = self.unnamed.remove(k);
                assert(self.unnamed_view() =~= uv.remove(k as int));
                Some(removed)
            },
            None => None,
        }
    }

    /// Makes `value` the only value named `key`.
    pub fn replace(&mut self, key: &str, value: String)
        requires
            old(self).wf(),
        ensures
            final(self).wf(),
            final(self).unnamed_view() == old(self).unnamed_view(),
            final(self).named_view() == named_replace(old(self).named_view(), key@, value@),
    {
        let ghost nv = self.named_view();
        let mut values: Vec<String> = Vec::new();
        values.push(value);
        assert(texts(values@) =~= seq![value@]);
        match self.find_key(key) {
            Some(k) => {
                self.named[k].1 = values;
                assert(self.named_view() =~= nv.update(k as int, (key@, seq![value@])));
                proof {
                    let c = choose|c: int| 0 <= c < nv.len() && (#[trigger] nv[c]).0 == key@;
                    assert(c == k);
                }
            },
            None => {
                self.named.push((String::from_str(key), values));
                assert(self.named_view() =~= nv.push((key@, seq![value@])));
            },
        }
    }

    /// Adds a bare item at the end.
    pub fn push(&mut self, value: String)
        requires
            old(self).wf(),
        ensures
            final(self).wf(),
            final(self).named_view() == old(self).named_view(),
            final(self).unnamed_view() == old(self).unnamed_view().push(value@),
    {
        let ghost uv = self.unnamed_view();
        self.unnamed.push(value);
        assert(self.unnamed_view() =~= uv.push(value@));
    }
}

} // verus!

verus! {

/// The percent-encoding that urlencoding's `encode` gives of a text.
pub uninterp spec fn url_encoded(s: Seq<char>) -> Seq<char>;

/// The text that urlencoding's `decode` gives of a percent-encoded text;
/// `None` where the decoded bytes are not UTF-8.
pub uninterp spec fn url_decoded(s: Seq<char>) -> Option<Seq<char>>;

/// A query string whose percent-escapes do not decode to UTF-8.
#[derive(Clone, Copy, Debug, PartialEq, Eq, Structural)]
pub struct InvalidEncoding;

/// Characters that percent-encoding leaves as they are.
pub open spec fn is_unreserved(c: char) -> bool {
    ('0' <= c && c <= '9') || ('A' <= c && c <= 'Z') || ('a' <= c && c <= 'z') || c == '-' || c == '.' || c == '_'
        || c == '~'
}

/// Relies on urlencoding's `encode`, which percent-encodes every byte but
/// ASCII letters, digits and `-_.~` (a text of those alone comes back as it
/// is); the result depends on the text alone.
#[verifier::external_body]
fn percent_encode(s: &str) -> (r: String)
    ensures
        r@ == url_encoded(s@),
        (forall|i: int| 0 <= i < s@.len() ==> is_unreserved(#[trigger] s@[i])) ==> r@ == s@,
{
    urlencoding::encode(s).into_owned()
}

/// Relies on urlencoding's `decode`, which fails exactly when the decoded bytes
/// are not UTF-8; the result depends on the text alone.
#[verifier::external_body]
fn percent_decode(s: &str) -> (r: Option<String>)
    ensures
        r.is_some() == url_decoded(s@).is_some(),
        r.is_some() ==> url_decoded(s@) == Some(r.unwrap()@),
{
    match urlencoding::decode(s) {
        Ok(text) => Some(text.into_owned()),
        Err(_) => None,
    }
}

/// Parts joined by `&`.
pub open spec fn join_amp(parts: Seq<Seq<char>>) -> Seq<char>
    decreases parts.len(),
{
    if parts.len() == 0 {
        Seq::empty()
    } else if parts.len() == 1 {
        parts[0]
    } else {
        join_amp(parts.drop_last()) + seq!['&'] + parts.last()
    }
}

pub open spec fn pair_text(key: Seq<char>, value: Seq<char>) -> Seq<char> {
    url_encoded(key) + seq!['='] + url_encoded(value)
}

pub open spec fn pair_texts(key: Seq<char>, values: Seq<Seq<char>>) -> Seq<Seq<char>> {
    values.map_values(|v: Seq<char>| pair_text(key, v))
}

/// `k=v` for every named value, names in order, values in order.
pub open spec fn named_parts(nv: Seq<(Seq<char>, Seq<Seq<char>>)>) -> Seq<Seq<char>>
    decreases nv.len(),
{
    if nv.len() == 0 {
        Seq::empty()
    } else {
        named_parts(nv.drop_last()) + pair_texts(nv.last().0, nv.last().1)
    }
}

/// The query string: encoded bare items, then the named values, joined by `&`.
pub open spec fn query_text(uv: Seq<Seq<char>>, nv: Seq<(Seq<char>, Seq<Seq<char>>)>) -> Seq<char> {
    join_amp(uv.map_values(|u: Seq<char>| url_encoded(u)) + named_parts(nv))
}

/// The first `=` at or after `i`.
pub open spec fn first_eq_from(p: Seq<char>, i: int) -> Option<int>
    decreases p.len() - i,
{
    if i < 0 || i >= p.len() {
        None
    } else if p[i] == '=' {
        Some(i)
    } else {
        first_eq_from(p, i + 1)
    }
}

/// The items after reading one piece: nothing for an empty piece, a bare item
/// without `=`, else a named value split at the first `=`.
pub open spec fn apply_piece(
    acc: (Seq<Seq<char>>, Seq<(Seq<char>, Seq<Seq<char>>)>),
    p: Seq<char>,
) -> Option<(Seq<Seq<char>>, Seq<(Seq<char>, Seq<Seq<char>>)>)> {
    if p.len() == 0 {
        Some(acc)
    } else {
        match first_eq_from(p, 0) {
            None => match url_decoded(p) {
                Some(d) => Some((acc.0.push(d), acc.1)),
                None => None,
            },
            Some(e) => match url_decoded(p.subrange(0, e)) {
                Some(k) => match url_decoded(p.subrange(e + 1, p.len() as int)) {
                    Some(v) => Some((acc.0, named_insert(acc.1, k, v))),
                    None => None,
                },
                None => None,
            },
        }
    }
}

pub open spec fn parse_pieces(pieces: Seq<Seq<char>>) -> Option<(Seq<Seq<char>>, Seq<(Seq<char>, Seq<Seq<char>>)>)>
    decreases pieces.len(),
{
    if pieces.len() == 0 {
        Some((Seq::empty(), Seq::empty()))
    } else {
        match parse_pieces(pieces.drop_last()) {
            Some(acc) => apply_piece(acc, pieces.last()),
            None => None,
        }
    }
}

/// The items of a query string; `None` where an escape does not decode.
pub open spec fn parse_spec(s: Seq<char>) -> Option<(Seq<Seq<char>>, Seq<(Seq<char>, Seq<Seq<char>>)>)> {
    parse_pieces(pieces_on(s, '&'))
}

proof fn lemma_parse_none_stays(pieces: Seq<Seq<char>>, k: int)
    requires
        0 <= k <= pieces.len(),
        parse_pieces(pieces.subrange(0, k)).is_none(),
    ensures
        parse_pieces(pieces).is_none(),
    decreases pieces.len() - k,
{
    if k < pieces.len() {
        assert(pieces.subrange(0, k + 1).drop_last() =~= pieces.subrange(0, k));
        lemma_parse_none_stays(pieces, k + 1);
    } else {
        assert(pieces.subrange(0, k) =~= pieces);
    }
}

fn find_eq(p: &str) -> (r: Option<usize>)
    ensures
        r.is_some() ==> r.unwrap() < p@.len(),
        widen_index(r) == first_eq_from(p@, 0),
{
    let n = p.unicode_len();
    let mut i: usize = 0;
    while i < n
        invariant
            n == p@.len(),
            0 <= i <= n,
            first_eq_from(p@, 0) == first_eq_from(p@, i as int),
        decreases n - i,
    {
        if p.get_char(i) == '=' {
            return Some(i);
        }
        i += 1;
    }
    None
}

pub open spec fn widen_index(o: Option<usize>) -> Option<int> {
    match o {
        Some(x) => Some(x as int),
        None => None,
    }
}

impl Query {
    /// Reads a query string: pieces between `&`, empty ones skipped; a piece
    /// with `=` is a named value split at its first `=`, one without is a bare
    /// item; names and values percent-decoded.
    pub fn parse(query: &str) -> (r: Result<Query, InvalidEncoding>)
        ensures
            r.is_ok() == parse_spec(query@).is_some(),
            r.is_ok() ==> r.unwrap().wf() && parse_spec(query@) == Some(
                (r.unwrap().unnamed_view(), r.unwrap().named_view()),
            ),
    {
        let pieces = split_on(query, '&');
        let ghost pv = texts(pieces@);
        let mut q = Query::new();
        let mut i: usize = 0;
        assert(pv.subrange(0, 0) =~= Seq::<Seq<char>>::empty());
        while i < pieces.len()
            invariant
                pv == texts(pieces@),
                pv == pieces_on(query@, '&'),
                0 <= i <= pieces@.len(),
                q.wf(),
                parse_pieces(pv.subrange(0, i as int)) == Some((q.unnamed_view(), q.named_view())),
            decreases pieces@.len() - i,
        {
            assert(pv.subrange(0, i + 1).drop_last() =~= pv.subrange(0, i as int));
            assert(pv.subrange(0, i + 1).last() == pv[i as int]);
            let p = pieces[i].as_str();
            if p.unicode_len() > 0 {
                match find_eq(p) {
                    None => {
                        match percent_decode(p) {
                            Some(d) => q.push(d),
                            None => {
                                proof {
                                    lemma_parse_none_stays(pv, i + 1);
                                }
                                return Err(InvalidEncoding);
                            },
                        }
                    },
                    Some(e) => {
                        let key = percent_decode(p.substring_char(0, e));
                        match key {
                            Some(k) => {
                                match percent_decode(p.substring_char(e + 1, p.unicode_len())) {
                                    Some(v) => q.insert(k, v),
                                    None => {
                                        proof {
                                            lemma_parse_none_stays(pv, i + 1);
                                        }
                                        return Err(InvalidEncoding);
                                    },
                                }
                            },
                            None => {
                                proof {
                                    lemma_parse_none_stays(pv, i + 1);
                                }
                                return Err(InvalidEncoding);
                            },
                        }
                    },
                }
            }
            i += 1;
        }
        assert(pv.subrange(0, pieces@.len() as int) =~= pv);
        Ok(q)
    }

    /// The query string: encoded bare items, then every named value as
    /// `name=value`, all joined by `&`.
    pub fn to_string(&self) -> (r: String)
        ensures
            r@ == query_text(self.unnamed_view(), self.named_view()),
    {
        let mut parts: Vec<String> = Vec::new();
        let mut i: usize = 0;
        while i < self.unnamed.len()
            invariant
                0 <= i <= self.unnamed@.len(),
                texts(parts@) == self.unnamed_view().subrange(0, i as int).map_values(|u: Seq<char>| url_encoded(u)),
            decreases self.unnamed@.len() - i,
        {
            let ghost before = texts(parts@);
            parts.push(percent_encode(self.unnamed[i].as_str()));
            assert(self.unnamed_view()[i as int] == self.unnamed@[i as int]@);
            assert(texts(parts@) =~= before.push(url_encoded(self.unnamed_view()[i as int])));
            assert(texts(parts@) =~= self.unnamed_view().subrange(0, i + 1).map_values(|u: Seq<char>| url_encoded(u)));
            i += 1;
        }
        let ghost head = texts(parts@);
        assert(self.unnamed_view().subrange(0, self.unnamed@.len() as int) =~= self.unnamed_view());
        let ghost nv = self.named_view();
        let mut k: usize = 0;
        assert(nv.subrange(0, 0) =~= Seq::<(Seq<char>, Seq<Seq<char>>)>::empty());
        while k < self.named.len()
            invariant
                nv == self.named_view(),
                0 <= k <= self.named@.len(),
                texts(parts@) == head + named_parts(nv.subrange(0, k as int)),
            decreases self.named@.len() - k,
        {
            let name = percent_encode(self.named[k].0.as_str());
            let values = &self.named[k].1;
            let ghost start = texts(parts@);
            let mut j: usize = 0;
            while j < values.len()
                invariant
                    nv == self.named_view(),
                    0 <= k < self.named@.len(),
                    values == &self.named@[k as int].1,
                    name@ == url_encoded(nv[k as int].0),
                    0 <= j <= values@.len(),
                    texts(parts@) == start + pair_texts(nv[k as int].0, nv[k as int].1.subrange(0, j as int)),
                decreases values@.len() - j,
            {
                proof {
                    reveal_strlit("=");
                }
                let mut part = name.clone();
                part.append("=");
                part.append(percent_encode(values[j].as_str()).as_str());
                let ghost before = texts(parts@);
                assert(nv[k as int].1[j as int] == values@[j as int]@);
                assert(part@ =~= pair_text(nv[k as int].0, nv[k as int].1[j as int]));
                parts.push(part);
                assert(texts(parts@) =~= before.push(pair_text(nv[k as int].0, nv[k as int].1[j as int])));
                assert(texts(parts@) =~= start + pair_texts(nv[k as int].0, nv[k as int].1.subrange(0, j + 1)));
                j += 1;
            }
            assert(nv[k as int].1.subrange(0, values@.len() as int) =~= nv[k as int].1);
            assert(nv.subrange(0, k + 1).drop_last() =~= nv.subrange(0, k as int));
            assert(texts(parts@) =~= head + named_parts(nv.subrange(0, k + 1)));
            k += 1;
        }
        assert(nv.subrange(0, self.named@.len() as int) =~= nv);
        join_parts(&parts)
    }
}

fn join_parts(parts: &Vec<String>) -> (r: String)
    ensures
        r@ == join_amp(texts(parts@)),
{
    let mut out = String::new();
    if parts.len() == 0 {
        return out;
    }
    out.append(parts[0].as_str());
    let mut i: usize = 1;
    assert(texts(parts@).subrange(0, 1) =~= seq![parts@[0]@]);
    while i < parts.len()
        invariant
            1 <= i <= parts@.len(),
            out@ == join_amp(texts(parts@).subrange(0, i as int)),
        decreases parts@.len() - i,
    {
        out.append("&");
        out.append(parts[i].as_str());
        proof {
            reveal_strlit("&");
        }
        assert(texts(parts@).subrange(0, i + 1).drop_last() =~= texts(parts@).subrange(0, i as int));
        i += 1;
    }
    assert(texts(parts@).subrange(0, parts@.len() as int) =~= texts(parts@));
    out
}

} // verus!
