//! What the members of the managed runtime do: each behaviour as a function
//! of the receiver, the marshaled arguments and the clock.

use vstd::prelude::*;
use vstd::string::StringExecFns;
use vstd::string::StrSliceExecFns;
use crate::classes::Behaviour;
use crate::marshal::{
    Atom,
    AtomModel,
    atoms_model,
    clone_atoms,
    Entry,
    entries_model,
    ObjectData,
    ObjectModel,
    Primitive,
};

verus! {

/// An exception the managed runtime raises during a call.
#[derive(Clone, Copy, Debug, PartialEq, Eq, Structural)]
pub enum Fault {
    /// An argument is missing or does not have the shape the member works on.
    ArgumentMismatch,
    /// An index lies outside the receiver.
    IndexOutOfBounds,
    /// A separator is not one character long.
    BadPattern,
    /// A count does not fit the managed runtime's 32-bit integer.
    Arithmetic,
}

/// Everything a call does.
#[derive(Debug)]
pub struct Effect {
    /// The data of the object the call returns, or the exception it raises.
    pub outcome: Result<ObjectData, Fault>,
    /// The line the call writes to the console, if it writes one.
    pub printed: Option<String>,
    /// The number of callbacks the call delivers.
    pub callbacks: u8,
    /// Whether each callback comes from a thread of its own.
    pub spread: bool,
}

/// The mathematical model of an [`Effect`], together with the receiver as the
/// call leaves it.
pub struct EffectModel {
    pub outcome: Result<ObjectModel, Fault>,
    pub receiver: ObjectModel,
    pub printed: Option<Seq<char>>,
    pub callbacks: nat,
    pub spread: bool,
}

impl Effect {
    /// The model of this effect, given the receiver as the call left it.
    pub open spec fn model(&self, receiver: ObjectModel) -> EffectModel {
        EffectModel {
            outcome: match self.outcome {
                Ok(data) => Ok(data@),
                Err(f) => Err(f),
            },
            receiver,
            printed: match self.printed {
                Some(line) => Some(line@),
                None => None,
            },
            callbacks: self.callbacks as nat,
            spread: self.spread,
        }
    }
}

/// A call that returns `data` and does nothing else.
pub open spec fn yields(receiver: ObjectModel, data: ObjectModel) -> EffectModel {
    EffectModel { outcome: Ok(data), receiver, printed: None, callbacks: 0, spread: false }
}

/// A call that raises `fault` and does nothing else.
pub open spec fn throws(receiver: ObjectModel, fault: Fault) -> EffectModel {
    EffectModel { outcome: Err(fault), receiver, printed: None, callbacks: 0, spread: false }
}

/// The argument at `index`, where there is one.
pub open spec fn arg_at(args: Seq<ObjectModel>, index: int) -> Option<ObjectModel> {
    if 0 <= index < args.len() {
        Some(args[index])
    } else {
        None
    }
}

/// The text of a managed string.
pub open spec fn text_of(data: Option<ObjectModel>) -> Option<Seq<char>> {
    match data {
        Some(ObjectModel::Single(AtomModel::Text(s))) => Some(s),
        _ => None,
    }
}

/// The value of a managed 32-bit integer, boxed or not.
pub open spec fn int_of(data: Option<ObjectModel>) -> Option<i32> {
    match data {
        Some(ObjectModel::Single(AtomModel::Scalar(Primitive::Int(v)))) => Some(v),
        _ => None,
    }
}

/// The elements of a managed array or list.
pub open spec fn items_of(data: Option<ObjectModel>) -> Option<Seq<AtomModel>> {
    match data {
        Some(ObjectModel::Items(items)) => Some(items),
        _ => None,
    }
}

/// The texts of `items`, joined by `separator`; `None` where an element is
/// no string.
pub open spec fn join_texts(items: Seq<AtomModel>, separator: Seq<char>) -> Option<Seq<char>>
    decreases items.len(),
{
    if items.len() == 0 {
        Some(Seq::empty())
    } else {
        match (join_texts(items.drop_last(), separator), items.last()) {
            (Some(front), AtomModel::Text(s)) => if items.len() == 1 {
                Some(s)
            } else {
                Some(front + separator + s)
            },
            _ => None,
        }
    }
}

/// The wrapping 32-bit sum of `items`; `None` where an element is no 32-bit
/// integer.
pub open spec fn sum_ints(items: Seq<AtomModel>) -> Option<i32>
    decreases items.len(),
{
    if items.len() == 0 {
        Some(0i32)
    } else {
        match (sum_ints(items.drop_last()), items.last()) {
            (Some(front), AtomModel::Scalar(Primitive::Int(v))) => Some(front.wrapping_add(v)),
            _ => None,
        }
    }
}

/// The integers from zero up to, not including, `n`, boxed.
pub open spec fn numbers_until(n: i32) -> Seq<AtomModel> {
    Seq::new(
        if n > 0 {
            n as nat
        } else {
            0
        },
        |i: int| AtomModel::Scalar(Primitive::Int(i as i32)),
    )
}

/// The models of a sequence of object data, position by position.
pub open spec fn data_model(args: Seq<ObjectData>) -> Seq<ObjectModel> {
    Seq::new(args.len(), |i: int| args[i]@)
}

/// Copies the entries of a map.
pub fn clone_entries(entries: &Vec<Entry>) -> (r: Vec<Entry>)
    ensures
        entries_model(r@) == entries_model(entries@),
{
    let mut out: Vec<Entry> = Vec::new();
    let mut i: usize = 0;
    while i < entries.len()
        invariant
            i <= entries.len(),
            out.len() == i,
            forall|j: int|
                0 <= j < i ==> out[j].key@ == entries[j].key@ && out[j].value@ == entries[j].value@,
        decreases entries.len() - i,
    {
        out.push(Entry { key: entries[i].key.clone(), value: entries[i].value.clone() });
        i += 1;
    }
    assert(entries_model(out@) =~= entries_model(entries@));
    out
}

/// Copies the data of an object.
pub fn clone_data(data: &ObjectData) -> (r: ObjectData)
    ensures
        r@ == data@,
{
    match data {
        ObjectData::Single(a) => ObjectData::Single(a.clone()),
        ObjectData::Items(items) => ObjectData::Items(clone_atoms(items)),
        ObjectData::Entries(entries) => ObjectData::Entries(clone_entries(entries)),
        ObjectData::Record { text } => ObjectData::Record { text: text.clone() },
        ObjectData::Plain => ObjectData::Plain,
    }
}

/// Joins the texts of `items` by `separator`.
pub fn join(items: &Vec<Atom>, separator: &str) -> (r: Option<String>)
    ensures
        match r {
            Some(s) => join_texts(atoms_model(items@), separator@) == Some(s@),
            None => join_texts(atoms_model(items@), separator@).is_none(),
        },
{
    let ghost all = atoms_model(items@);
    let mut out = String::new();
    let mut i: usize = 0;
    proof {
        assert(all.take(0) =~= Seq::<AtomModel>::empty());
    }
    while i < items.len()
        invariant
            i <= items.len(),
            all == atoms_model(items@),
            join_texts(all.take(i as int), separator@) == Some(out@),
        decreases items.len() - i,
    {
        proof {
            assert(all.take(i as int + 1).drop_last() =~= all.take(i as int));
            assert(all.take(i as int + 1).last() == items[i as int]@);
        }
        match &items[i] {
            Atom::Text(s) => {
                if i > 0 {
                    out.append(separator);
                }
                out.append(s.as_str());
                proof {
                    if i == 0 {
                        assert(Seq::<char>::empty() + s@ =~= s@);
                    }
                }
            },
            _ => {
                proof {
                    lemma_join_fails_on(all, separator@, i as int + 1);
                }
                return None;
            },
        }
        i += 1;
    }
    proof {
        assert(all.take(items.len() as int) =~= all);
    }
    Some(out)
}

/// Joining fails on the whole sequence where it fails on a prefix.
pub proof fn lemma_join_fails_on(items: Seq<AtomModel>, separator: Seq<char>, n: int)
    requires
        0 <= n <= items.len(),
        join_texts(items.take(n), separator).is_none(),
    ensures
        join_texts(items, separator).is_none(),
    decreases items.len() - n,
{
    if n < items.len() {
        assert(items.take(n + 1).drop_last() =~= items.take(n));
        lemma_join_fails_on(items, separator, n + 1);
    } else {
        assert(items.take(n) =~= items);
    }
}

/// Summing fails on the whole sequence where it fails on a prefix.
pub proof fn lemma_sum_fails_on(items: Seq<AtomModel>, n: int)
    requires
        0 <= n <= items.len(),
        sum_ints(items.take(n)).is_none(),
    ensures
        sum_ints(items).is_none(),
    decreases items.len() - n,
{
    if n < items.len() {
        assert(items.take(n + 1).drop_last() =~= items.take(n));
        lemma_sum_fails_on(items, n + 1);
    } else {
        assert(items.take(n) =~= items);
    }
}

/// Sums the 32-bit integers of `items`, wrapping.
pub fn sum(items: &Vec<Atom>) -> (r: Option<i32>)
    ensures
        r == sum_ints(atoms_model(items@)),
{
    let ghost all = atoms_model(items@);
    let mut total: i32 = 0;
    let mut i: usize = 0;
    proof {
        assert(all.take(0) =~= Seq::<AtomModel>::empty());
    }
    while i < items.len()
        invariant
            i <= items.len(),
            all == atoms_model(items@),
            sum_ints(all.take(i as int)) == Some(total),
        decreases items.len() - i,
    {
        proof {
            assert(all.take(i as int + 1).drop_last() =~= all.take(i as int));
            assert(all.take(i as int + 1).last() == items[i as int]@);
        }
        match &items[i] {
            Atom::Scalar(Primitive::Int(v)) => {
                total = total.wrapping_add(*v);
            },
            _ => {
                proof {
                    lemma_sum_fails_on(all, i as int + 1);
                }
                return None;
            },
        }
        i += 1;
    }
    proof {
        assert(all.take(items.len() as int) =~= all);
    }
    Some(total)
}

/// The integers from zero up to, not including, `n`, boxed.
pub fn count_up(n: i32) -> (r: Vec<Atom>)
    ensures
        atoms_model(r@) == numbers_until(n),
{
    let mut out: Vec<Atom> = Vec::new();
    let mut i: i32 = 0;
    while i < n
        invariant
            0 <= i,
            n > 0 ==> i <= n,
            n <= 0 ==> i == 0,
            out.len() == i,
            forall|j: int| 0 <= j < i ==> out[j]@ == AtomModel::Scalar(Primitive::Int(j as i32)),
        decreases n - i,
    {
        out.push(Atom::Scalar(Primitive::Int(i)));
        i += 1;
    }
    assert(atoms_model(out@) =~= numbers_until(n));
    out
}

/// The strings `texts` as managed strings.
pub open spec fn text_atoms(texts: Seq<Seq<char>>) -> Seq<AtomModel> {
    Seq::new(texts.len(), |i: int| AtomModel::Text(texts[i]))
}

/// The pieces of `s` between the occurrences of `separator`. A text without
/// the separator is one piece, and empty pieces are kept.
pub open spec fn split_text(s: Seq<char>, separator: char) -> Seq<Seq<char>>
    decreases s.len(),
{
    if s.len() == 0 {
        seq![Seq::empty()]
    } else {
        let front = split_text(s.drop_last(), separator);
        if s.last() == separator {
            front.push(Seq::empty())
        } else {
            front.drop_last().push(front.last().push(s.last()))
        }
    }
}

/// Splitting never yields nothing, and no piece holds the separator.
pub proof fn lemma_split_pieces(s: Seq<char>, separator: char)
    ensures
        split_text(s, separator).len() >= 1,
        forall|i: int, j: int|
            0 <= i < split_text(s, separator).len() && 0 <= j < split_text(s, separator)[i].len()
                ==> #[trigger] split_text(s, separator)[i][j] != separator,
    decreases s.len(),
{
    if s.len() > 0 {
        lemma_split_pieces(s.drop_last(), separator);
        let front = split_text(s.drop_last(), separator);
        let all = split_text(s, separator);
        assert forall|i: int, j: int| 0 <= i < all.len() && 0 <= j < all[i].len() implies #[trigger] all[i][j]
            != separator by {
            if s.last() == separator {
                if i < front.len() {
                    assert(all[i][j] == front[i][j]);
                }
            } else {
                if i < front.len() - 1 {
                    assert(all[i][j] == front[i][j]);
                } else if j < front.last().len() {
                    assert(all[i][j] == front[front.len() - 1][j]);
                }
            }
        }
    }
}

/// Joining undoes splitting: the pieces of a text, joined by the separator
/// they were split at, are the text.
pub proof fn lemma_join_undoes_split(s: Seq<char>, separator: char)
    ensures
        join_texts(text_atoms(split_text(s, separator)), seq![separator]) == Some(s),
    decreases s.len(),
{
    let sep = seq![separator];
    let all = split_text(s, separator);
    let atoms = text_atoms(all);
    assert(join_texts(Seq::<AtomModel>::empty(), sep) == Some(Seq::<char>::empty()));
    if s.len() == 0 {
        assert(atoms.len() == 1);
        assert(atoms.drop_last() =~= Seq::<AtomModel>::empty());
        assert(atoms.last() == AtomModel::Text(Seq::<char>::empty()));
        assert(s =~= Seq::<char>::empty());
        assert(join_texts(atoms, sep) == Some(s));
    } else {
        let rest = s.drop_last();
        let front = split_text(rest, separator);
        lemma_split_pieces(rest, separator);
        lemma_join_undoes_split(rest, separator);
        assert(join_texts(text_atoms(front), sep) == Some(rest));
        if s.last() == separator {
            assert(all == front.push(Seq::<char>::empty()));
            assert(atoms.len() == front.len() + 1);
            assert(atoms.drop_last() =~= text_atoms(front));
            assert(atoms.last() == AtomModel::Text(Seq::<char>::empty()));
            assert(rest + sep + Seq::<char>::empty() =~= s);
            assert(join_texts(atoms, sep) == Some(s));
        } else {
            let grown = front.last().push(s.last());
            assert(all == front.drop_last().push(grown));
            assert(atoms.len() == front.len());
            assert(atoms.drop_last() =~= text_atoms(front).drop_last());
            assert(atoms.last() == AtomModel::Text(grown));
            assert(text_atoms(front).last() == AtomModel::Text(front.last()));
            if front.len() == 1 {
                assert(atoms.drop_last() =~= Seq::<AtomModel>::empty());
                assert(join_texts(text_atoms(front), sep) == Some(front.last()));
                assert(grown =~= s);
                assert(join_texts(atoms, sep) == Some(s));
            } else {
                let before = join_texts(text_atoms(front).drop_last(), sep);
                assert(before is Some);
                assert(join_texts(text_atoms(front), sep) == Some(
                    before.unwrap() + sep + front.last(),
                ));
                assert(before.unwrap() + sep + grown =~= (before.unwrap() + sep + front.last()).push(
                    s.last(),
                ));
                assert(rest.push(s.last()) =~= s);
                assert(join_texts(atoms, sep) == Some(s));
            }
        }
    }
}

/// Splits `s` at each occurrence of `separator`.
pub fn split(s: &str, separator: char) -> (r: Vec<Atom>)
    ensures
        atoms_model(r@) == text_atoms(split_text(s@, separator)),
{
    let n = s.unicode_len();
    let mut pieces: Vec<Atom> = Vec::new();
    let ghost mut texts: Seq<Seq<char>> = Seq::empty();
    let mut start: usize = 0;
    let mut i: usize = 0;
    proof {
        assert(s@.take(0) =~= Seq::<char>::empty());
        assert(s@.subrange(0, 0) =~= Seq::<char>::empty());
        assert(seq![Seq::<char>::empty()] =~= texts.push(s@.subrange(0, 0)));
        assert(atoms_model(pieces@) =~= text_atoms(texts));
    }
    while i < n
        invariant
            n == s@.len(),
            start <= i <= n,
            atoms_model(pieces@) == text_atoms(texts),
            split_text(s@.take(i as int), separator) == texts.push(
                s@.subrange(start as int, i as int),
            ),
        decreases n - i,
    {
        let c = s.get_char(i);
        proof {
            assert(s@.take(i as int + 1).drop_last() =~= s@.take(i as int));
            assert(s@.take(i as int + 1).last() == c);
            let front = texts.push(s@.subrange(start as int, i as int));
            assert(front.drop_last() =~= texts);
            assert(front.last() == s@.subrange(start as int, i as int));
            assert(s@.subrange(start as int, i as int).push(c) =~= s@.subrange(
                start as int,
                i as int + 1,
            ));
            assert(s@.subrange(i as int + 1, i as int + 1) =~= Seq::<char>::empty());
        }
        if c == separator {
            let piece = String::from_str(s.substring_char(start, i));
            let ghost before = pieces@;
            let ghost texts_before = texts;
            proof {
                texts = texts.push(piece@);
            }
            pieces.push(Atom::Text(piece));
            start = i + 1;
            proof {
                assert(atoms_model(before).len() == text_atoms(texts_before).len());
                assert(before.len() == texts_before.len());
                assert(pieces@ == before.push(Atom::Text(piece)));
                assert forall|j: int| 0 <= j < pieces@.len() implies atoms_model(pieces@)[j]
                    == text_atoms(texts)[j] by {
                    if j < before.len() {
                        assert(atoms_model(before)[j] == text_atoms(texts_before)[j]);
                    }
                }
                assert(atoms_model(pieces@) =~= text_atoms(texts));
            }
        }
        i += 1;
    }
    let piece = String::from_str(s.substring_char(start, n));
    let ghost before = pieces@;
    pieces.push(Atom::Text(piece));
    proof {
        assert(s@.take(n as int) =~= s@);
        let all = texts.push(s@.subrange(start as int, n as int));
        assert(atoms_model(before).len() == text_atoms(texts).len());
        assert(before.len() == texts.len());
        assert forall|j: int| 0 <= j < pieces@.len() implies atoms_model(pieces@)[j] == text_atoms(
            all,
        )[j] by {
            if j < before.len() {
                assert(atoms_model(before)[j] == text_atoms(texts)[j]);
            }
        }
        assert(atoms_model(pieces@) =~= text_atoms(all));
    }
    pieces
}

/// Whether the entry at `i` is the first one bound to `key`.
pub open spec fn is_first_key(entries: Seq<(AtomModel, AtomModel)>, key: AtomModel, i: int) -> bool {
    0 <= i < entries.len() && entries[i].0 == key && forall|j: int|
        0 <= j < i ==> (#[trigger] entries[j]).0 != key
}

/// Whether an entry is bound to `key`.
pub open spec fn has_key(entries: Seq<(AtomModel, AtomModel)>, key: AtomModel) -> bool {
    exists|i: int| is_first_key(entries, key, i)
}

/// The position of the first entry bound to `key`.
pub open spec fn first_key(entries: Seq<(AtomModel, AtomModel)>, key: AtomModel) -> int {
    choose|i: int| is_first_key(entries, key, i)
}

/// The entries of a map after `key` has been bound to `value`: the first
/// entry for the key is replaced where there is one, and a new entry is
/// added at the end otherwise.
pub open spec fn entries_after_put(
    entries: Seq<(AtomModel, AtomModel)>,
    key: AtomModel,
    value: AtomModel,
) -> Seq<(AtomModel, AtomModel)> {
    if has_key(entries, key) {
        entries.update(first_key(entries, key), (key, value))
    } else {
        entries.push((key, value))
    }
}

/// The value `key` was bound to before a put, or null.
pub open spec fn value_before_put(entries: Seq<(AtomModel, AtomModel)>, key: AtomModel) -> AtomModel {
    if has_key(entries, key) {
        entries[first_key(entries, key)].1
    } else {
        AtomModel::Null
    }
}

/// Whether two managed values are equal.
pub fn atom_eq(a: &Atom, b: &Atom) -> (r: bool)
    ensures
        r == (a@ == b@),
{
    match (a, b) {
        (Atom::Null, Atom::Null) => true,
        (Atom::Scalar(p), Atom::Scalar(q)) => *p == *q,
        (Atom::Text(s), Atom::Text(t)) => *s == *t,
        _ => false,
    }
}

/// The position of the first entry bound to `key`.
pub fn find_key(entries: &Vec<Entry>, key: &Atom) -> (r: Option<usize>)
    ensures
        match r {
            Some(i) => has_key(entries_model(entries@), key@) && first_key(
                entries_model(entries@),
                key@,
            ) == i,
            None => !has_key(entries_model(entries@), key@),
        },
{
    let ghost es = entries_model(entries@);
    let mut i: usize = 0;
    while i < entries.len()
        invariant
            i <= entries.len(),
            es == entries_model(entries@),
            forall|j: int| 0 <= j < i ==> (#[trigger] es[j]).0 != key@,
        decreases entries.len() - i,
    {
        if atom_eq(&entries[i].key, key) {
            proof {
                assert(is_first_key(es, key@, i as int));
                let k = first_key(es, key@);
                assert(is_first_key(es, key@, k));
                if k < i {
                    assert(es[k].0 != key@);
                } else if i < k {
                    assert(es[i as int].0 != key@);
                }
            }
            return Some(i);
        }
        i += 1;
    }
    proof {
        if has_key(es, key@) {
            let k = first_key(es, key@);
            assert(is_first_key(es, key@, k));
            assert(es[k].0 != key@);
        }
    }
    None
}

/// Binds `key` to `value` in `entries` and returns the value bound before,
/// or null.
pub fn put(entries: &mut Vec<Entry>, key: Atom, value: Atom) -> (previous: Atom)
    ensures
        entries_model(final(entries)@) == entries_after_put(
            entries_model(old(entries)@),
            key@,
            value@,
        ),
        previous@ == value_before_put(entries_model(old(entries)@), key@),
{
    match find_key(entries, &key) {
        Some(i) => {
            let previous = entries[i].value.clone();
            entries.set(i, Entry { key, value });
            proof {
                assert(entries_model(entries@) =~= entries_model(old(entries)@).update(
                    i as int,
                    (key@, value@),
                ));
            }
            previous
        },
        None => {
            entries.push(Entry { key, value });
            proof {
                assert(entries_model(entries@) =~= entries_model(old(entries)@).push(
                    (key@, value@),
                ));
            }
            Atom::Null
        },
    }
}


/// The text a record is constructed with where none is given.
pub open spec fn default_text() -> Seq<char> {
    "THE DEFAULT CONSTRUCTOR WAS CALLED"@
}

/// The entries of the map the fixture hands out.
pub open spec fn fixture_entries() -> Seq<(AtomModel, AtomModel)> {
    seq![
        (AtomModel::Text("one"@), AtomModel::Scalar(Primitive::Int(1))),
        (AtomModel::Text("two"@), AtomModel::Scalar(Primitive::Int(2))),
    ]
}

/// A managed string.
pub open spec fn text_data(s: Seq<char>) -> ObjectModel {
    ObjectModel::Single(AtomModel::Text(s))
}

/// A managed scalar.
pub open spec fn scalar_data(p: Primitive) -> ObjectModel {
    ObjectModel::Single(AtomModel::Scalar(p))
}

/// Managed null.
pub open spec fn null_data() -> ObjectModel {
    ObjectModel::Single(AtomModel::Null)
}

/// What invoking a member with the given behaviour does: the data it returns
/// or the exception it raises, the receiver as it leaves it, the line it
/// prints and the callbacks it delivers.
///
/// A member that finds an argument missing, or of another shape than it
/// works on, raises `ArgumentMismatch` and changes nothing.
pub open spec fn run_model(
    behaviour: Behaviour,
    receiver: ObjectModel,
    args: Seq<ObjectModel>,
    clock: i64,
) -> EffectModel {
    let first = arg_at(args, 0);
    let second = arg_at(args, 1);
    let mismatch = throws(receiver, Fault::ArgumentMismatch);
    match behaviour {
        Behaviour::NewText => match text_of(first) {
            Some(s) => yields(receiver, text_data(s)),
            None => mismatch,
        },
        Behaviour::NewBoxed => match first {
            Some(ObjectModel::Single(AtomModel::Scalar(p))) => yields(receiver, scalar_data(p)),
            _ => mismatch,
        },
        Behaviour::NewRecord => yields(receiver, ObjectModel::Record { text: default_text() }),
        Behaviour::NewRecordFromText => match text_of(first) {
            Some(s) => yields(receiver, ObjectModel::Record { text: s }),
            None => mismatch,
        },
        Behaviour::NewRecordFromItems => match items_of(first) {
            Some(items) => match join_texts(items, ", "@) {
                Some(s) => yields(receiver, ObjectModel::Record { text: s }),
                None => mismatch,
            },
            None => mismatch,
        },
        Behaviour::NewRecordFromRecord => match first {
            Some(ObjectModel::Record { text }) => yields(receiver, ObjectModel::Record { text }),
            _ => mismatch,
        },
        Behaviour::NewPlain => yields(receiver, ObjectModel::Plain),
        Behaviour::Split => match (text_of(Some(receiver)), text_of(first)) {
            (Some(s), Some(separator)) => if separator.len() == 1 {
                yields(receiver, ObjectModel::Items(text_atoms(split_text(s, separator[0]))))
            } else {
                throws(receiver, Fault::BadPattern)
            },
            _ => mismatch,
        },
        Behaviour::Length => match text_of(Some(receiver)) {
            Some(s) => if s.len() <= i32::MAX {
                yields(receiver, scalar_data(Primitive::Int(s.len() as i32)))
            } else {
                throws(receiver, Fault::Arithmetic)
            },
            None => mismatch,
        },
        Behaviour::IsEmpty => match text_of(Some(receiver)) {
            Some(s) => yields(receiver, scalar_data(Primitive::Bool(s.len() == 0))),
            None => mismatch,
        },
        Behaviour::CharAt => match (text_of(Some(receiver)), int_of(first)) {
            (Some(s), Some(i)) => if 0 <= i < s.len() {
                yields(receiver, scalar_data(Primitive::Char(s[i as int])))
            } else {
                throws(receiver, Fault::IndexOutOfBounds)
            },
            _ => mismatch,
        },
        Behaviour::ClockMillis => yields(receiver, scalar_data(Primitive::Long(clock))),
        Behaviour::PrintLine => match text_of(first) {
            Some(s) => EffectModel {
                outcome: Ok(null_data()),
                receiver,
                printed: Some(s),
                callbacks: 0,
                spread: false,
            },
            None => mismatch,
        },
        Behaviour::Console => yields(receiver, ObjectModel::Plain),
        Behaviour::GetText => match receiver {
            ObjectModel::Record { text } => yields(receiver, text_data(text)),
            _ => mismatch,
        },
        Behaviour::AppendText => match (receiver, text_of(first)) {
            (ObjectModel::Record { text }, Some(s)) => yields(
                ObjectModel::Record { text: text + s },
                text_data(text + s),
            ),
            _ => mismatch,
        },
        Behaviour::Echo => match first {
            Some(data) => yields(receiver, data),
            None => mismatch,
        },
        Behaviour::ConcatItems => match items_of(first) {
            Some(items) => match join_texts(items, ""@) {
                Some(s) => yields(receiver, text_data(s)),
                None => mismatch,
            },
            None => mismatch,
        },
        Behaviour::SumItems => match items_of(first) {
            Some(items) => match sum_ints(items) {
                Some(v) => yields(receiver, scalar_data(Primitive::Int(v))),
                None => mismatch,
            },
            None => mismatch,
        },
        Behaviour::SumPair => match (int_of(first), int_of(second)) {
            (Some(a), Some(b)) => yields(receiver, scalar_data(Primitive::Int(a.wrapping_add(b)))),
            _ => mismatch,
        },
        Behaviour::AcceptItems => match items_of(first) {
            Some(_) => yields(receiver, null_data()),
            None => mismatch,
        },
        Behaviour::GetMap => yields(receiver, ObjectModel::Entries(fixture_entries())),
        Behaviour::NumbersUntil => match int_of(first) {
            Some(n) => yields(receiver, ObjectModel::Items(numbers_until(n))),
            None => mismatch,
        },
        Behaviour::GetNull => yields(receiver, null_data()),
        Behaviour::Size => match receiver {
            ObjectModel::Entries(entries) => if entries.len() <= i32::MAX {
                yields(receiver, scalar_data(Primitive::Int(entries.len() as i32)))
            } else {
                throws(receiver, Fault::Arithmetic)
            },
            _ => mismatch,
        },
        Behaviour::Put => match (receiver, first, second) {
            (
                ObjectModel::Entries(entries),
                Some(ObjectModel::Single(key)),
                Some(ObjectModel::Single(value)),
            ) => yields(
                ObjectModel::Entries(entries_after_put(entries, key, value)),
                ObjectModel::Single(value_before_put(entries, key)),
            ),
            _ => mismatch,
        },
        Behaviour::Callback => EffectModel {
            outcome: Ok(null_data()),
            receiver,
            printed: None,
            callbacks: 1,
            spread: false,
        },
        Behaviour::TenCallbacks => EffectModel {
            outcome: Ok(null_data()),
            receiver,
            printed: None,
            callbacks: 10,
            spread: false,
        },
        Behaviour::CallbackFromTenThreads => EffectModel {
            outcome: Ok(null_data()),
            receiver,
            printed: None,
            callbacks: 10,
            spread: true,
        },
    }
}


/// The text of the argument at `index`, where it is a string.
pub fn text_arg(args: &Vec<ObjectData>, index: usize) -> (r: Option<&String>)
    ensures
        match r {
            Some(s) => text_of(arg_at(data_model(args@), index as int)) == Some(s@),
            None => text_of(arg_at(data_model(args@), index as int)).is_none(),
        },
{
    if index < args.len() {
        match &args[index] {
            ObjectData::Single(Atom::Text(s)) => Some(s),
            _ => None,
        }
    } else {
        None
    }
}

/// The value of the argument at `index`, where it is a 32-bit integer.
pub fn int_arg(args: &Vec<ObjectData>, index: usize) -> (r: Option<i32>)
    ensures
        r == int_of(arg_at(data_model(args@), index as int)),
{
    if index < args.len() {
        match &args[index] {
            ObjectData::Single(Atom::Scalar(Primitive::Int(v))) => Some(*v),
            _ => None,
        }
    } else {
        None
    }
}

/// The elements of the argument at `index`, where it is an array or a list.
pub fn items_arg(args: &Vec<ObjectData>, index: usize) -> (r: Option<&Vec<Atom>>)
    ensures
        match r {
            Some(items) => items_of(arg_at(data_model(args@), index as int)) == Some(
                atoms_model(items@),
            ),
            None => items_of(arg_at(data_model(args@), index as int)).is_none(),
        },
{
    if index < args.len() {
        match &args[index] {
            ObjectData::Items(items) => Some(items),
            _ => None,
        }
    } else {
        None
    }
}

/// A call that returns `data` and does nothing else.
fn done(data: ObjectData) -> (e: Effect)
    ensures
        forall|receiver: ObjectModel| #[trigger] e.model(receiver) == yields(receiver, data@),
{
    Effect { outcome: Ok(data), printed: None, callbacks: 0, spread: false }
}

/// A call that raises `fault` and does nothing else.
fn failed(fault: Fault) -> (e: Effect)
    ensures
        forall|receiver: ObjectModel| #[trigger] e.model(receiver) == throws(receiver, fault),
{
    Effect { outcome: Err(fault), printed: None, callbacks: 0, spread: false }
}

/// A call that returns null and delivers `callbacks` callbacks.
fn calling_back(callbacks: u8, spread: bool) -> (e: Effect)
    ensures
        forall|receiver: ObjectModel| #[trigger]
            e.model(receiver) == (EffectModel {
                outcome: Ok(null_data()),
                receiver,
                printed: None,
                callbacks: callbacks as nat,
                spread,
            }),
{
    Effect { outcome: Ok(ObjectData::Single(Atom::Null)), printed: None, callbacks, spread }
}

/// The fixture's map.
fn fixture_map() -> (r: Vec<Entry>)
    ensures
        entries_model(r@) == fixture_entries(),
{
    let mut entries: Vec<Entry> = Vec::new();
    entries.push(
        Entry { key: Atom::Text(String::from_str("one")), value: Atom::Scalar(Primitive::Int(1)) },
    );
    entries.push(
        Entry { key: Atom::Text(String::from_str("two")), value: Atom::Scalar(Primitive::Int(2)) },
    );
    assert(entries_model(entries@) =~= fixture_entries());
    entries
}

/// Invokes a member with the given behaviour on `receiver`.
pub fn run(behaviour: Behaviour, receiver: &mut ObjectData, args: &Vec<ObjectData>, clock: i64) -> (e:
    Effect)
    ensures
        e.model(final(receiver)@) == run_model(behaviour, old(receiver)@, data_model(args@), clock),
{
    let ghost first = arg_at(data_model(args@), 0);
    match behaviour {
        Behaviour::NewText => match text_arg(args, 0) {
            Some(s) => done(ObjectData::Single(Atom::Text(s.clone()))),
            None => failed(Fault::ArgumentMismatch),
        },
        Behaviour::NewBoxed => {
            if args.len() > 0 {
                match &args[0] {
                    ObjectData::Single(Atom::Scalar(p)) => done(
                        ObjectData::Single(Atom::Scalar(*p)),
                    ),
                    _ => failed(Fault::ArgumentMismatch),
                }
            } else {
                failed(Fault::ArgumentMismatch)
            }
        },
        Behaviour::NewRecord => done(
            ObjectData::Record { text: String::from_str("THE DEFAULT CONSTRUCTOR WAS CALLED") },
        ),
        Behaviour::NewRecordFromText => match text_arg(args, 0) {
            Some(s) => done(ObjectData::Record { text: s.clone() }),
            None => failed(Fault::ArgumentMismatch),
        },
        Behaviour::NewRecordFromItems => match items_arg(args, 0) {
            Some(items) => match join(items, ", ") {
                Some(s) => done(ObjectData::Record { text: s }),
                None => failed(Fault::ArgumentMismatch),
            },
            None => failed(Fault::ArgumentMismatch),
        },
        Behaviour::NewRecordFromRecord => {
            if args.len() > 0 {
                match &args[0] {
                    ObjectData::Record { text } => done(ObjectData::Record { text: text.clone() }),
                    _ => failed(Fault::ArgumentMismatch),
                }
            } else {
                failed(Fault::ArgumentMismatch)
            }
        },
        Behaviour::NewPlain => done(ObjectData::Plain),
        Behaviour::Split => {
            let separator = text_arg(args, 0);
            match (&*receiver, separator) {
                (ObjectData::Single(Atom::Text(s)), Some(separator)) => {
                    if separator.as_str().unicode_len() == 1 {
                        let c = separator.as_str().get_char(0);
                        done(ObjectData::Items(split(s.as_str(), c)))
                    } else {
                        failed(Fault::BadPattern)
                    }
                },
                _ => failed(Fault::ArgumentMismatch),
            }
        },
        Behaviour::Length => match &*receiver {
            ObjectData::Single(Atom::Text(s)) => {
                let n = s.as_str().unicode_len();
                if n <= 2147483647 {
                    done(ObjectData::Single(Atom::Scalar(Primitive::Int(n as i32))))
                } else {
                    failed(Fault::Arithmetic)
                }
            },
            _ => failed(Fault::ArgumentMismatch),
        },
        Behaviour::IsEmpty => match &*receiver {
            ObjectData::Single(Atom::Text(s)) => {
                let n = s.as_str().unicode_len();
                done(ObjectData::Single(Atom::Scalar(Primitive::Bool(n == 0))))
            },
            _ => failed(Fault::ArgumentMismatch),
        },
        Behaviour::CharAt => {
            let index = int_arg(args, 0);
            match (&*receiver, index) {
                (ObjectData::Single(Atom::Text(s)), Some(i)) => {
                    let n = s.as_str().unicode_len();
                    if 0 <= i && (i as usize) < n {
                        let c = s.as_str().get_char(i as usize);
                        done(ObjectData::Single(Atom::Scalar(Primitive::Char(c))))
                    } else {
                        failed(Fault::IndexOutOfBounds)
                    }
                },
                _ => failed(Fault::ArgumentMismatch),
            }
        },
        Behaviour::ClockMillis => done(ObjectData::Single(Atom::Scalar(Primitive::Long(clock)))),
        Behaviour::PrintLine => match text_arg(args, 0) {
            Some(s) => Effect {
                outcome: Ok(ObjectData::Single(Atom::Null)),
                printed: Some(s.clone()),
                callbacks: 0,
                spread: false,
            },
            None => failed(Fault::ArgumentMismatch),
        },
        Behaviour::Console => done(ObjectData::Plain),
        Behaviour::GetText => match &*receiver {
            ObjectData::Record { text } => done(ObjectData::Single(Atom::Text(text.clone()))),
            _ => failed(Fault::ArgumentMismatch),
        },
        Behaviour::AppendText => {
            let suffix = text_arg(args, 0);
            let appended = match (&*receiver, suffix) {
                (ObjectData::Record { text }, Some(s)) => {
                    let mut whole = text.clone();
                    whole.append(s.as_str());
                    Some(whole)
                },
                _ => None,
            };
            match appended {
                Some(whole) => {
                    let copy = whole.clone();
                    *receiver = ObjectData::Record { text: whole };
                    done(ObjectData::Single(Atom::Text(copy)))
                },
                None => failed(Fault::ArgumentMismatch),
            }
        },
        Behaviour::Echo => {
            if args.len() > 0 {
                done(clone_data(&args[0]))
            } else {
                failed(Fault::ArgumentMismatch)
            }
        },
        Behaviour::ConcatItems => match items_arg(args, 0) {
            Some(items) => match join(items, "") {
                Some(s) => done(ObjectData::Single(Atom::Text(s))),
                None => failed(Fault::ArgumentMismatch),
            },
            None => failed(Fault::ArgumentMismatch),
        },
        Behaviour::SumItems => match items_arg(args, 0) {
            Some(items) => match sum(items) {
                Some(v) => done(ObjectData::Single(Atom::Scalar(Primitive::Int(v)))),
                None => failed(Fault::ArgumentMismatch),
            },
            None => failed(Fault::ArgumentMismatch),
        },
        Behaviour::SumPair => match (int_arg(args, 0), int_arg(args, 1)) {
            (Some(a), Some(b)) => done(
                ObjectData::Single(Atom::Scalar(Primitive::Int(a.wrapping_add(b)))),
            ),
            _ => failed(Fault::ArgumentMismatch),
        },
        Behaviour::AcceptItems => match items_arg(args, 0) {
            Some(_) => done(ObjectData::Single(Atom::Null)),
            None => failed(Fault::ArgumentMismatch),
        },
        Behaviour::GetMap => done(ObjectData::Entries(fixture_map())),
        Behaviour::NumbersUntil => match int_arg(args, 0) {
            Some(n) => done(ObjectData::Items(count_up(n))),
            None => failed(Fault::ArgumentMismatch),
        },
        Behaviour::GetNull => done(ObjectData::Single(Atom::Null)),
        Behaviour::Size => match &*receiver {
            ObjectData::Entries(entries) => {
                let n = entries.len();
                if n <= 2147483647 {
                    done(ObjectData::Single(Atom::Scalar(Primitive::Int(n as i32))))
                } else {
                    failed(Fault::Arithmetic)
                }
            },
            _ => failed(Fault::ArgumentMismatch),
        },
        Behaviour::Put => {
            let pair = if args.len() > 1 {
                match (&args[0], &args[1]) {
                    (ObjectData::Single(key), ObjectData::Single(value)) => Some(
                        (key.clone(), value.clone()),
                    ),
                    _ => None,
                }
            } else {
                None
            };
            let bound = match (&*receiver, pair) {
                (ObjectData::Entries(entries), Some((key, value))) => {
                    let mut updated = clone_entries(entries);
                    let previous = put(&mut updated, key, value);
                    Some((updated, previous))
                },
                _ => None,
            };
            match bound {
                Some((updated, previous)) => {
                    *receiver = ObjectData::Entries(updated);
                    done(ObjectData::Single(previous))
                },
                None => failed(Fault::ArgumentMismatch),
            }
        },
        Behaviour::Callback => calling_back(1, false),
        Behaviour::TenCallbacks => calling_back(10, false),
        Behaviour::CallbackFromTenThreads => calling_back(10, true),
    }
}


/// The message of the exception a fault stands for.
pub open spec fn fault_message(fault: Fault) -> Seq<char> {
    match fault {
        Fault::ArgumentMismatch => "java.lang.IllegalArgumentException: argument type mismatch"@,
        Fault::IndexOutOfBounds => "java.lang.StringIndexOutOfBoundsException: index out of range"@,
        Fault::BadPattern => "java.util.regex.PatternSyntaxException: separator must be one character"@,
        Fault::Arithmetic => "java.lang.ArithmeticException: integer overflow"@,
    }
}

/// The stack trace of the exception a fault stands for.
pub open spec fn fault_trace(fault: Fault) -> Seq<char> {
    "\tat org.astonbitecode.j4rs.api.invocation.JsonInvocationImpl.invoke"@
}

/// Exec twin of [`fault_message`].
pub fn fault_message_text(fault: Fault) -> (s: String)
    ensures
        s@ == fault_message(fault),
{
    match fault {
        Fault::ArgumentMismatch => String::from_str(
            "java.lang.IllegalArgumentException: argument type mismatch",
        ),
        Fault::IndexOutOfBounds => String::from_str(
            "java.lang.StringIndexOutOfBoundsException: index out of range",
        ),
        Fault::BadPattern => String::from_str(
            "java.util.regex.PatternSyntaxException: separator must be one character",
        ),
        Fault::Arithmetic => String::from_str("java.lang.ArithmeticException: integer overflow"),
    }
}

/// Exec twin of [`fault_trace`].
pub fn fault_trace_text(fault: Fault) -> (s: String)
    ensures
        s@ == fault_trace(fault),
{
    String::from_str("\tat org.astonbitecode.j4rs.api.invocation.JsonInvocationImpl.invoke")
}


} // verus!
