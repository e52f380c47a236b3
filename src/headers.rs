//! An ordered multimap of header fields whose names compare up to ASCII case.
use vstd::prelude::*;
use crate::text::{eq_ignore_case, same_name};

verus! {

/// A header value: text when it is made of visible characters, raw bytes
/// otherwise.
#[derive(Debug)]
pub enum HeaderValue {
    Text(String),
    Bytes(Vec<u8>),
}

/// What a header value holds.
pub ghost enum ValueView {
    Text(Seq<char>),
    Bytes(Seq<u8>),
}

impl View for HeaderValue {
    type V = ValueView;

    open spec fn view(&self) -> ValueView {
        match self {
            HeaderValue::Text(s) => ValueView::Text(s@),
            HeaderValue::Bytes(b) => ValueView::Bytes(b@),
        }
    }
}

/// The header fields of one message, in order; a name may occur many times.
#[derive(Debug)]
pub struct HeaderSet {
    entries: Vec<(String, HeaderValue)>,
}

/// Whether `name` is, up to case, one of `names`.
pub open spec fn listed(name: Seq<char>, names: Seq<Seq<char>>) -> bool {
    exists|i: int| 0 <= i < names.len() && same_name(name, #[trigger] names[i])
}

/// The entries of `s` whose names are not listed in `names`, in their order.
pub open spec fn keep(s: Seq<(Seq<char>, ValueView)>, names: Seq<Seq<char>>) -> Seq<(Seq<char>, ValueView)>
    decreases s.len(),
{
    if s.len() == 0 {
        s
    } else {
        let rest = keep(s.drop_last(), names);
        if listed(s.last().0, names) {
            rest
        } else {
            rest.push(s.last())
        }
    }
}

/// The value of the first entry of `s` named `name`, up to case.
pub open spec fn first_value(s: Seq<(Seq<char>, ValueView)>, name: Seq<char>) -> Option<ValueView>
    decreases s.len(),
{
    if s.len() == 0 {
        None
    } else {
        let before = first_value(s.drop_last(), name);
        if before is Some {
            before
        } else if same_name(s.last().0, name) {
            Some(s.last().1)
        } else {
            None
        }
    }
}

/// `s` with every entry named `name` taken out and one entry `(name, v)` added
/// at the end.
pub open spec fn replaced(s: Seq<(Seq<char>, ValueView)>, name: Seq<char>, v: ValueView) -> Seq<(Seq<char>, ValueView)> {
    keep(s, seq![name]).push((name, v))
}

/// Once a prefix of `s` holds an entry named `name`, the rest of `s` does not
/// change which value comes first.
pub proof fn lemma_first_value_prefix(s: Seq<(Seq<char>, ValueView)>, k: int)
    requires
        0 <= k <= s.len(),
    ensures
        forall|name: Seq<char>|
            #[trigger] first_value(s.take(k), name) is Some ==> first_value(s, name)
                == first_value(s.take(k), name),
    decreases s.len(),
{
    if s.len() > k {
        lemma_first_value_prefix(s.drop_last(), k);
        assert(s.drop_last().take(k) =~= s.take(k));
    } else {
        assert(s.take(k) =~= s);
    }
}

pub proof fn lemma_keep_len(s: Seq<(Seq<char>, ValueView)>, names: Seq<Seq<char>>)
    ensures
        keep(s, names).len() <= s.len(),
    decreases s.len(),
{
    if s.len() > 0 {
        lemma_keep_len(s.drop_last(), names);
    }
}

impl View for HeaderSet {
    type V = Seq<(Seq<char>, ValueView)>;

    closed spec fn view(&self) -> Seq<(Seq<char>, ValueView)> {
        self.entries@.map_values(|e: (String, HeaderValue)| (e.0@, e.1@))
    }
}

impl HeaderSet {
    pub fn new() -> (r: HeaderSet)
        ensures
            r@ == Seq::<(Seq<char>, ValueView)>::empty(),
    {
        HeaderSet { entries: Vec::new() }
    }

    pub fn len(&self) -> (r: usize)
        ensures
            r == self@.len(),
    {
        self.entries.len()
    }

    /// The entry at position `i`.
    pub fn entry(&self, i: usize) -> (r: (&String, &HeaderValue))
        requires
            i < self@.len(),
        ensures
            r.0@ == self@[i as int].0,
            r.1@ == self@[i as int].1,
    {
        let e = &self.entries[i];
        (&e.0, &e.1)
    }

    /// Adds an entry at the end, keeping those of the same name.
    pub fn append(&mut self, name: String, value: HeaderValue)
        ensures
            final(self)@ == old(self)@.push((name@, value@)),
    {
        self.entries.push((name, value));
        assert(self@ =~= old(self)@.push((name@, value@)));
    }

    /// The value of the first entry named `name`, up to case.
    pub fn get(&self, name: &str) -> (r: Option<&HeaderValue>)
        ensures
            match r {
                Some(v) => first_value(self@, name@) == Some(v@),
                None => first_value(self@, name@) is None,
            },
    {
        let n = self.entries.len();
        let mut i: usize = 0;
        while i < n
            invariant
                n == self@.len(),
                i <= n,
                first_value(self@.take(i as int), name@) is None,
            decreases n - i,
        {
            assert(self@.take(i + 1).drop_last() =~= self@.take(i as int));
            if eq_ignore_case(self.entries[i].0.as_str(), name) {
                proof {
                    assert(self@.take(i + 1).last() == self@[i as int]);
                    assert(first_value(self@.take(i + 1), name@) == Some(self@[i as int].1));
                    lemma_first_value_prefix(self@, i + 1);
                }
                return Some(&self.entries[i].1);
            }
            i = i + 1;
        }
        assert(self@.take(n as int) =~= self@);
        None
    }

    /// Takes out every entry named `name`, up to case, keeping the others in
    /// order.
    pub fn remove(&mut self, name: &str)
        ensures
            final(self)@ == keep(old(self)@, seq![name@]),
    {
        let ghost names = seq![name@];
        let ghost orig = self@;
        assert(names.len() == 1 && names[0] == name@);
        let n = self.entries.len();
        let mut i: usize = 0;
        let mut j: usize = 0;
        assert(orig.take(0) =~= Seq::<(Seq<char>, ValueView)>::empty());
        assert(orig.skip(0) =~= orig);
        while j < n
            invariant
                n == orig.len(),
                names.len() == 1,
                names[0] == name@,
                j <= n,
                i == keep(orig.take(j as int), names).len(),
                self@ == keep(orig.take(j as int), names) + orig.skip(j as int),
            decreases n - j,
        {
            let ghost kept = keep(orig.take(j as int), names);
            assert(orig.take(j + 1).drop_last() =~= orig.take(j as int));
            assert(orig.take(j + 1).last() == orig[j as int]);
            assert(self@[i as int] == orig[j as int]);
            assert(self.entries@.len() == self@.len());
            assert(self.entries@[i as int].0@ == orig[j as int].0);
            proof {
                lemma_keep_len(orig.take(j as int), names);
            }
            let hit = eq_ignore_case(self.entries[i].0.as_str(), name);
            assert(hit == listed(orig[j as int].0, names)) by {
                if listed(orig[j as int].0, names) {
                    let k = choose|k: int| 0 <= k < names.len() && same_name(orig[j as int].0, #[trigger] names[k]);
                    assert(k == 0);
                }
                if hit {
                    assert(same_name(orig[j as int].0, names[0]));
                }
            }
            if hit {
                let ghost before = self.entries@;
                let ghost before_view = self@;
                self.entries.remove(i);
                assert(self.entries@ =~= before.remove(i as int));
                assert(self@ =~= before_view.remove(i as int));
                assert(before_view.remove(i as int) =~= kept + orig.skip(j + 1));
                assert(self@ =~= kept + orig.skip(j + 1));
            } else {
                assert(self@ =~= kept.push(orig[j as int]) + orig.skip(j + 1));
                i = i + 1;
            }
            j = j + 1;
        }
        assert(orig.take(n as int) =~= orig);
        assert(self@ =~= keep(orig, names));
    }

    /// Replaces every entry named `name` by a single entry at the end.
    pub fn insert(&mut self, name: String, value: HeaderValue)
        ensures
            final(self)@ == replaced(old(self)@, name@, value@),
    {
        self.remove(name.as_str());
        let ghost mid = self@;
        self.entries.push((name, value));
        assert(self@ =~= mid.push((name@, value@)));
    }
}

} // verus!
