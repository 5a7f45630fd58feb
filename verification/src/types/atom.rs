//! Interned atoms and the table that interns them.
use vstd::prelude::*;
use vstd::string::StrSliceExecFns;

verus! {

/// The longest atom, counted in characters.
pub const MAX_ATOM_CHARS: usize = 255;

/// The largest number of atoms a table holds.
pub const MAX_ATOM_COUNT: usize = 1048576;

/// Interned, immutable identifier of a string held by an [`AtomTable`].
///
/// An atom is the slot index of its string in the table; two atoms of one
/// table are equal exactly when they name the same string. The derived
/// order is by slot, that is, by the order in which atoms were interned;
/// [`Atom::lt_in`] compares their strings.
#[derive(Clone, Copy, Debug, Hash, PartialEq, Eq, PartialOrd, Ord, Structural)]
pub struct Atom {
    slot: u32,
}

impl View for Atom {
    type V = u32;

    closed spec fn view(&self) -> u32 {
        self.slot
    }
}

impl Atom {
    /// The atom of table slot `slot`.
    pub closed spec fn spec_from_slot(slot: u32) -> Atom {
        Atom { slot }
    }

    /// An atom is the atom of its slot.
    pub broadcast proof fn lemma_from_slot(atom: Atom, slot: u32)
        ensures
            #[trigger] Atom::spec_from_slot(atom@) == atom,
            (#[trigger] Atom::spec_from_slot(slot))@ == slot,
    {
    }

    /// Constructs an atom from a raw table slot.
    pub fn from_slot(slot: u32) -> (r: Atom)
        ensures
            r@ == slot,
            r == Atom::spec_from_slot(slot),
    {
        Atom { slot }
    }

    /// Returns the table slot backing this atom.
    pub fn into_slot(self) -> (r: u32)
        ensures
            r == self@,
    {
        self.slot
    }

    /// The atom of the empty string.
    pub fn empty() -> (r: Atom)
        ensures
            r@ == 0,
            r == Atom::spec_from_slot(0),
    {
        Atom { slot: 0 }
    }

    /// The atom `kill`.
    pub fn kill() -> (r: Atom)
        ensures
            r@ == 1,
            r == Atom::spec_from_slot(1),
    {
        Atom { slot: 1 }
    }

    /// The atom `killed`.
    pub fn killed() -> (r: Atom)
        ensures
            r@ == 2,
            r == Atom::spec_from_slot(2),
    {
        Atom { slot: 2 }
    }

    /// The atom `normal`.
    pub fn normal() -> (r: Atom)
        ensures
            r@ == 3,
            r == Atom::spec_from_slot(3),
    {
        Atom { slot: 3 }
    }

    /// The atom `noproc`.
    pub fn noproc() -> (r: Atom)
        ensures
            r@ == 4,
            r == Atom::spec_from_slot(4),
    {
        Atom { slot: 4 }
    }

    /// The atom `noconn`.
    pub fn noconn() -> (r: Atom)
        ensures
            r@ == 5,
            r == Atom::spec_from_slot(5),
    {
        Atom { slot: 5 }
    }

    /// The atom `undefined`.
    pub fn undefined() -> (r: Atom)
        ensures
            r@ == 6,
            r == Atom::spec_from_slot(6),
    {
        Atom { slot: 6 }
    }

    /// Interns `data` in `table` and returns its atom.
    ///
    /// A string interned before gives back its earlier atom.
    pub fn new(table: &mut AtomTable, data: &str) -> (r: Atom)
        requires
            old(table).wf(),
            intern_succeeds(old(table)@, data@),
        ensures
            final(table).wf(),
            intern_result(old(table)@, data@) == Ok::<u32, AtomTableError>(r@),
            final(table)@ == intern_names(old(table)@, data@),
            (r@ as int) < final(table)@.len(),
            final(table)@[r@ as int] == data@,
            forall|k: int| 0 <= k < old(table)@.len() && old(table)@[k] == data@ ==> r@ == k,
    {
        proof {
            old(table).law_wf_distinct();
            law_intern_roundtrip(old(table)@, data@);
        }
        match table.set(data) {
            Ok(slot) => Atom { slot },
            Err(_) => {
                proof {
                    assert(false);
                }
                Atom { slot: 0 }
            },
        }
    }

    /// Returns the string this atom names in `table`.
    pub fn as_str<'a>(&self, table: &'a AtomTable) -> (r: &'a str)
        requires
            table.wf(),
            self@ < table@.len(),
        ensures
            r@ == table@[self@ as int],
    {
        match table.get(self.slot) {
            Some(data) => data,
            None => {
                proof {
                    assert(false);
                }
                ""
            },
        }
    }
}

impl Atom {
    /// Returns the string this atom names in `table`, as an owned string.
    pub fn to_string(&self, table: &AtomTable) -> (r: String)
        requires
            table.wf(),
            self@ < table@.len(),
        ensures
            r@ == table@[self@ as int],
    {
        self.as_str(table).to_owned()
    }
}

impl Atom {
    /// Returns `true` if this atom names the string `other` in `table`.
    pub fn eq_str(&self, table: &AtomTable, other: &str) -> (r: bool)
        requires
            table.wf(),
            self@ < table@.len(),
        ensures
            r == (table@[self@ as int] == other@),
    {
        let mine: String = self.to_string(table);
        let theirs: String = other.to_owned();
        mine == theirs
    }
}

/// Returns `true` if `a` comes before `b` in lexicographic order of
/// character codes, comparing from position `i` on.
pub open spec fn lex_less_from(a: Seq<char>, b: Seq<char>, i: int) -> bool
    decreases (if a.len() > b.len() { a.len() } else { b.len() }) - i,
{
    if i < 0 || i >= b.len() {
        false
    } else if i >= a.len() {
        true
    } else if (a[i] as u32) < (b[i] as u32) {
        true
    } else if (a[i] as u32) > (b[i] as u32) {
        false
    } else {
        lex_less_from(a, b, i + 1)
    }
}

/// Returns `true` if string `a` comes before string `b`: the order of
/// strings, by character codes, that atoms compare by.
pub open spec fn lex_less(a: Seq<char>, b: Seq<char>) -> bool {
    lex_less_from(a, b, 0)
}

proof fn lemma_lex_common_prefix(a: Seq<char>, b: Seq<char>, j: int, i: int)
    requires
        0 <= j <= i,
        i <= a.len(),
        i <= b.len(),
        forall|k: int| j <= k < i ==> a[k] == b[k],
    ensures
        lex_less_from(a, b, j) == lex_less_from(a, b, i),
    decreases i - j,
{
    if j < i {
        assert(a[j] == b[j]);
        lemma_lex_common_prefix(a, b, j + 1, i);
    }
}

/// String order is lexicographic order of character codes: past the common
/// prefix of length `i` of `a` and `b`, the first differing character
/// decides, and when one string runs out first, the shorter one comes
/// first; no string comes before itself. Every pair of strings meets one
/// case, with `i` the length of their common prefix.
pub proof fn law_lex_order(a: Seq<char>, b: Seq<char>, i: int)
    requires
        0 <= i <= a.len(),
        i <= b.len(),
        forall|k: int| 0 <= k < i ==> a[k] == b[k],
    ensures
        i < a.len() && i < b.len() && (a[i] as u32) < (b[i] as u32) ==> lex_less(a, b),
        i < a.len() && i < b.len() && (a[i] as u32) > (b[i] as u32) ==> !lex_less(a, b),
        i == a.len() && i < b.len() ==> lex_less(a, b),
        i == b.len() ==> !lex_less(a, b),
        !lex_less(a, a),
{
    lemma_lex_common_prefix(a, b, 0, i);
    lemma_lex_common_prefix(a, a, 0, a.len() as int);
}

impl Atom {
    /// Returns `true` if this atom's string comes before `other`'s in
    /// `table`, comparing character codes from the first character.
    pub fn lt_in(&self, other: Atom, table: &AtomTable) -> (r: bool)
        requires
            table.wf(),
            self@ < table@.len(),
            other@ < table@.len(),
        ensures
            r == lex_less(table@[self@ as int], table@[other@ as int]),
    {
        let a: &str = self.as_str(table);
        let b: &str = other.as_str(table);
        let a_len: usize = a.unicode_len();
        let b_len: usize = b.unicode_len();
        let mut i: usize = 0;
        while i < a_len && i < b_len
            invariant
                a_len == a@.len(),
                b_len == b@.len(),
                a@ == table@[self@ as int],
                b@ == table@[other@ as int],
                i <= a_len,
                i <= b_len,
                lex_less(a@, b@) == lex_less_from(a@, b@, i as int),
            decreases a_len - i,
        {
            let x: char = a.get_char(i);
            let y: char = b.get_char(i);
            if (x as u32) < (y as u32) {
                return true;
            }
            if (x as u32) > (y as u32) {
                return false;
            }
            i = i + 1;
        }
        i < b_len
    }
}

impl Default for Atom {
    /// The atom of the empty string.
    fn default() -> (r: Atom)
        ensures
            r == Atom::spec_from_slot(0),
    {
        Atom::empty()
    }
}

// -----------------------------------------------------------------------------
// Atom table
// -----------------------------------------------------------------------------

/// Reasons why a string could not be interned.
#[derive(Clone, Copy, Debug, PartialEq, Eq, Structural)]
pub enum AtomTableError {
    /// The string has more than [`MAX_ATOM_CHARS`] characters.
    AtomTooLarge,
    /// The table already holds [`MAX_ATOM_COUNT`] atoms.
    TooManyAtoms,
}

/// Hash index from interned strings to their slots.
#[verifier::external_body]
pub struct AtomIndex {
    map: hashbrown::HashMap<String, u32>,
}

/// The string-to-slot pairs that an [`AtomIndex`] holds.
pub uninterp spec fn atom_index_contents(index: AtomIndex) -> Map<Seq<char>, u32>;

/// Creates an empty `hashbrown::HashMap` (`HashMap::with_capacity`); the
/// contract claims it holds no pairs.
#[verifier::external_body]
fn atom_index_new(capacity: usize) -> (r: AtomIndex)
    ensures
        atom_index_contents(r).dom() == Set::<Seq<char>>::empty(),
{
    AtomIndex { map: hashbrown::HashMap::with_capacity(capacity) }
}

/// Looks a string up with `hashbrown::HashMap::get`; the contract claims it
/// returns the slot stored under a key equal to `key`, if there is one.
#[verifier::external_body]
fn atom_index_get(index: &AtomIndex, key: &str) -> (r: Option<u32>)
    ensures
        r is Some <==> atom_index_contents(*index).dom().contains(key@),
        r is Some ==> r->0 == atom_index_contents(*index)[key@],
{
    index.map.get(key).copied()
}

/// Stores a pair with `hashbrown::HashMap::insert`; the contract claims the
/// key now maps to `slot` and every other key is unchanged.
#[verifier::external_body]
fn atom_index_insert(index: &mut AtomIndex, key: String, slot: u32)
    ensures
        atom_index_contents(*final(index)) == atom_index_contents(*old(index)).insert(key@, slot),
{
    index.map.insert(key, slot);
}

/// Returns `true` if `names` holds no string twice.
pub open spec fn names_distinct(names: Seq<Seq<char>>) -> bool {
    forall|i: int, j: int| 0 <= i < names.len() && 0 <= j < names.len() && i != j ==> names[i] != names[j]
}

/// The slot that interning `data` into a table holding `names` yields, or the
/// error it fails with.
pub open spec fn intern_result(names: Seq<Seq<char>>, data: Seq<char>) -> Result<u32, AtomTableError> {
    if names.contains(data) {
        Ok(names.index_of(data) as u32)
    } else if data.len() > MAX_ATOM_CHARS {
        Err(AtomTableError::AtomTooLarge)
    } else if names.len() >= MAX_ATOM_COUNT {
        Err(AtomTableError::TooManyAtoms)
    } else {
        Ok(names.len() as u32)
    }
}

/// The strings a table holding `names` holds after interning `data`.
pub open spec fn intern_names(names: Seq<Seq<char>>, data: Seq<char>) -> Seq<Seq<char>> {
    if !names.contains(data) && data.len() <= MAX_ATOM_CHARS && names.len() < MAX_ATOM_COUNT {
        names.push(data)
    } else {
        names
    }
}

/// Returns `true` if interning `data` into a table holding `names` succeeds.
pub open spec fn intern_succeeds(names: Seq<Seq<char>>, data: Seq<char>) -> bool {
    intern_result(names, data) is Ok
}

/// Table of interned strings; slot `i` holds the `i`-th string interned.
pub struct AtomTable {
    names: Vec<String>,
    index: AtomIndex,
}

impl View for AtomTable {
    type V = Seq<Seq<char>>;

    closed spec fn view(&self) -> Seq<Seq<char>> {
        self.names@.map_values(|s: String| s@)
    }
}

impl AtomTable {
    /// The table's invariant: no string twice, at most [`MAX_ATOM_COUNT`]
    /// strings, and an index that maps each string to its slot.
    pub closed spec fn wf(&self) -> bool {
        let names = self@;
        let contents = atom_index_contents(self.index);
        &&& names_distinct(names)
        &&& names.len() <= MAX_ATOM_COUNT
        &&& forall|k: Seq<char>| #[trigger] contents.dom().contains(k) <==> names.contains(k)
        &&& forall|k: Seq<char>| #[trigger] contents.dom().contains(k) ==> (contents[k] as int) < names.len()
            && names[contents[k] as int] == k
    }

    /// A well-formed table holds no string twice, and at most
    /// [`MAX_ATOM_COUNT`] strings.
    pub proof fn law_wf_distinct(&self)
        requires
            self.wf(),
        ensures
            names_distinct(self@),
            self@.len() <= MAX_ATOM_COUNT,
    {
    }

    /// Creates an empty table.
    pub fn new() -> (r: AtomTable)
        ensures
            r.wf(),
            r@ == Seq::<Seq<char>>::empty(),
    {
        let r = AtomTable { names: Vec::new(), index: atom_index_new(1024) };
        assert(r@ =~= Seq::<Seq<char>>::empty());
        r
    }

    /// Returns the number of interned strings.
    pub fn len(&self) -> (r: usize)
        ensures
            r == self@.len(),
    {
        self.names.len()
    }

    /// Returns the string in `slot`, or `None` if the slot is not in use.
    pub fn get(&self, slot: u32) -> (r: Option<&str>)
        ensures
            r is Some <==> (slot as int) < self@.len(),
            r is Some ==> r->0@ == self@[slot as int],
    {
        let index = slot as usize;
        if index < self.names.len() {
            Some(self.names[index].as_str())
        } else {
            None
        }
    }

    /// Interns `data`, returning its slot.
    ///
    /// A string interned before gives back its slot and leaves the table
    /// unchanged; a new string takes the next slot.
    ///
    /// # Errors
    ///
    /// [`AtomTableError::AtomTooLarge`] for a new string of more than
    /// [`MAX_ATOM_CHARS`] characters, and [`AtomTableError::TooManyAtoms`]
    /// for a new string once the table holds [`MAX_ATOM_COUNT`] strings.
    pub fn set(&mut self, data: &str) -> (r: Result<u32, AtomTableError>)
        requires
            old(self).wf(),
        ensures
            final(self).wf(),
            r == intern_result(old(self)@, data@),
            final(self)@ == intern_names(old(self)@, data@),
            forall|k: int| 0 <= k < old(self)@.len() && old(self)@[k] == data@ ==> r == Ok::<u32, AtomTableError>(k as u32),
    {
        proof {
            lemma_index_of_distinct(self@, data@);
        }
        if let Some(slot) = atom_index_get(&self.index, data) {
            return Ok(slot);
        }
        if data.unicode_len() > MAX_ATOM_CHARS {
            return Err(AtomTableError::AtomTooLarge);
        }
        let len = self.names.len();
        if len >= MAX_ATOM_COUNT {
            return Err(AtomTableError::TooManyAtoms);
        }
        let ghost old_names = self@;
        let ghost old_contents = atom_index_contents(self.index);
        let owned: String = data.to_owned();
        let key: String = data.to_owned();
        self.names.push(owned);
        atom_index_insert(&mut self.index, key, len as u32);
        proof {
            assert(self@ =~= old_names.push(data@));
            let names = self@;
            let contents = atom_index_contents(self.index);
            assert(contents == old_contents.insert(data@, len as u32));
            assert(names[len as int] == data@);
            assert forall|k: Seq<char>| #[trigger] contents.dom().contains(k) <==> names.contains(k) by {
                if k != data@ {
                    if names.contains(k) {
                        let i = names.index_of(k);
                        assert(i != len);
                        assert(old_names[i] == k);
                        assert(old_names.contains(k));
                    }
                    if old_names.contains(k) {
                        let i = old_names.index_of(k);
                        assert(names[i] == k);
                    }
                    assert(contents.dom().contains(k) == old_contents.dom().contains(k));
                } else {
                    assert(names.contains(k));
                }
            }
            assert forall|k: Seq<char>| #[trigger] contents.dom().contains(k) implies (contents[k] as int)
                < names.len() && names[contents[k] as int] == k by {
                if k != data@ {
                    assert(old_contents.dom().contains(k));
                }
            }
            assert forall|i: int, j: int| 0 <= i < names.len() && 0 <= j < names.len() && i != j implies names[i] != names[j] by {
                if i == len {
                    assert(old_names[j] == names[j]);
                    assert(old_names.contains(names[j]));
                } else if j == len {
                    assert(old_names[i] == names[i]);
                    assert(old_names.contains(names[i]));
                }
            }
        }
        Ok(len as u32)
    }
}

/// The strings of the well-known atoms, by slot.
pub open spec fn well_known_names() -> Seq<Seq<char>> {
    seq!["".view(), "kill".view(), "killed".view(), "normal".view(), "noproc".view(), "noconn".view(), "undefined".view()]
}

/// The well-known strings are distinct.
proof fn lemma_well_known_distinct()
    ensures
        names_distinct(well_known_names()),
        forall|i: int| 0 <= i < 7 ==> #[trigger] well_known_names()[i].len() <= MAX_ATOM_CHARS,
        well_known_names().len() == 7,
{
    reveal_strlit("");
    reveal_strlit("kill");
    reveal_strlit("killed");
    reveal_strlit("normal");
    reveal_strlit("noproc");
    reveal_strlit("noconn");
    reveal_strlit("undefined");
    let w = well_known_names();
    assert(w[0].len() == 0);
    assert(w[1].len() == 4);
    assert(w[2].len() == 6 && w[2][0] == 'k');
    assert(w[3].len() == 6 && w[3][0] == 'n' && w[3][2] == 'r');
    assert(w[4].len() == 6 && w[4][0] == 'n' && w[4][2] == 'p');
    assert(w[5].len() == 6 && w[5][0] == 'n' && w[5][2] == 'c');
    assert(w[6].len() == 9);
}

impl AtomTable {
    /// Creates a table holding the well-known atoms, each in the slot its
    /// constructor names: `""`, `kill`, `killed`, `normal`, `noproc`,
    /// `noconn`, `undefined`.
    pub fn with_well_known() -> (r: AtomTable)
        ensures
            r.wf(),
            r@ == well_known_names(),
    {
        let mut table = AtomTable::new();
        let names: [&str; 7] = ["", "kill", "killed", "normal", "noproc", "noconn", "undefined"];
        proof {
            reveal_strlit("");
            reveal_strlit("kill");
            reveal_strlit("killed");
            reveal_strlit("normal");
            reveal_strlit("noproc");
            reveal_strlit("noconn");
            reveal_strlit("undefined");
        }
        let mut i: usize = 0;
        while i < 7
            invariant
                table.wf(),
                i <= 7,
                names@ == seq!["", "kill", "killed", "normal", "noproc", "noconn", "undefined"],
                table@ == well_known_names().subrange(0, i as int),
            decreases 7 - i,
        {
            let ghost before = table@;
            proof {
                lemma_well_known_distinct();
                let w = well_known_names();
                assert(w[i as int] == names@[i as int]@);
                assert(!before.contains(w[i as int])) by {
                    if before.contains(w[i as int]) {
                        let j = before.index_of(w[i as int]);
                        assert(w[j] == w[i as int]);
                    }
                }
            }
            let _ = table.set(names[i]);
            proof {
                assert(table@ =~= well_known_names().subrange(0, i + 1));
            }
            i = i + 1;
        }
        proof {
            assert(table@ =~= well_known_names());
        }
        table
    }
}

/// In a table with no string twice, the slot of a held string is its only
/// position.
proof fn lemma_index_of_distinct(names: Seq<Seq<char>>, data: Seq<char>)
    requires
        names_distinct(names),
    ensures
        names.contains(data) ==> forall|i: int| 0 <= i < names.len() && names[i] == data
            ==> names.index_of(data) == i,
{
    if names.contains(data) {
        let k = names.index_of(data);
        assert(names[k] == data);
    }
}


/// Interning gives back the string interned: the slot of a successful
/// interning holds `data` in the table after it.
pub proof fn law_intern_roundtrip(names: Seq<Seq<char>>, data: Seq<char>)
    requires
        names_distinct(names),
        names.len() <= MAX_ATOM_COUNT,
        intern_succeeds(names, data),
    ensures
        0 <= intern_result(names, data)->Ok_0 < intern_names(names, data).len(),
        intern_names(names, data)[intern_result(names, data)->Ok_0 as int] == data,
{
    if names.contains(data) {
        lemma_index_of_distinct(names, data);
        let i = names.index_of(data);
        assert(0 <= i < names.len() && names[i] == data);
    }
}

/// Interning a string a second time gives the same slot and leaves the
/// table as the first interning left it.
pub proof fn law_intern_idempotent(names: Seq<Seq<char>>, data: Seq<char>)
    requires
        names_distinct(names),
        names.len() <= MAX_ATOM_COUNT,
        intern_succeeds(names, data),
    ensures
        intern_result(intern_names(names, data), data) == intern_result(names, data),
        intern_names(intern_names(names, data), data) == intern_names(names, data),
{
    let after = intern_names(names, data);
    law_intern_roundtrip(names, data);
    let slot = intern_result(names, data)->Ok_0 as int;
    assert(after.contains(data)) by {
        assert(after[slot] == data);
    }
    assert(names_distinct(after)) by {
        if !names.contains(data) {
            assert forall|i: int, j: int| 0 <= i < after.len() && 0 <= j < after.len() && i != j implies after[i]
                != after[j] by {
                if i == names.len() {
                    assert(names.contains(after[j]));
                } else if j == names.len() {
                    assert(names.contains(after[i]));
                }
            }
        }
    }
    lemma_index_of_distinct(after, data);
}

/// Two different strings interned one after the other get different atoms.
pub proof fn law_intern_distinct(names: Seq<Seq<char>>, first: Seq<char>, second: Seq<char>)
    requires
        names_distinct(names),
        names.len() <= MAX_ATOM_COUNT,
        first != second,
        intern_succeeds(names, first),
        intern_succeeds(intern_names(names, first), second),
    ensures
        intern_result(names, first) != intern_result(intern_names(names, first), second),
{
    let after = intern_names(names, first);
    law_intern_roundtrip(names, first);
    law_intern_idempotent(names, first);
    assert(names_distinct(after)) by {
        if !names.contains(first) {
            assert forall|i: int, j: int| 0 <= i < after.len() && 0 <= j < after.len() && i != j implies after[i]
                != after[j] by {
                if i == names.len() {
                    assert(names.contains(after[j]));
                } else if j == names.len() {
                    assert(names.contains(after[i]));
                }
            }
        }
    }
    law_intern_roundtrip(after, second);
    let last = intern_names(after, second);
    let s1 = intern_result(names, first)->Ok_0 as int;
    let s2 = intern_result(after, second)->Ok_0 as int;
    assert(last[s2] == second);
    assert(after[s1] == first);
    if s1 < after.len() {
        assert(last[s1] == after[s1]);
    }
}

} // verus!
