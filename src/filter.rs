use vstd::prelude::*;
use crate::level::Level;
use vstd::string::StringSliceAdditionalSpecFns;

verus! {

/// One row of the module filter table: records of a module are emitted only when their
/// severity value is below `level`.
pub struct FilterEntry {
    pub name: Vec<u8>,
    pub level: u16,
}

/// Name of the module whose records are always emitted, whatever the table holds.
pub open spec fn exempt_module() -> Seq<u8> {
    seq![107u8, 101u8, 114u8, 110u8, 101u8, 108u8, 58u8, 58u8, 117u8, 110u8, 119u8, 105u8, 110u8, 100u8]
}

/// Whether row `i` is the first row of the table named `name`.
pub open spec fn matches_at(table: Seq<FilterEntry>, name: Seq<u8>, i: int) -> bool {
    &&& 0 <= i < table.len()
    &&& table[i].name@ == name
    &&& forall|j: int| 0 <= j < i ==> table[j].name@ != name
}

/// Whether a record of severity `level` from module `name` is emitted: always for the
/// exempt module; otherwise by the first row for `name`, and always when there is none.
pub open spec fn spec_enabled(level: Level, name: Seq<u8>, table: Seq<FilterEntry>) -> bool {
    if name == exempt_module() {
        true
    } else if exists|i: int| matches_at(table, name, i) {
        let i = choose|i: int| matches_at(table, name, i);
        level.spec_value() < table[i].level
    } else {
        true
    }
}

fn bytes_equal(a: &[u8], b: &[u8]) -> (r: bool)
    ensures
        r == (a@ == b@),
{
    if a.len() != b.len() {
        return false;
    }
    let mut i: usize = 0;
    while i < a.len()
        invariant
            a@.len() == b@.len(),
            i <= a@.len(),
            forall|j: int| 0 <= j < i ==> a@[j] == b@[j],
        decreases a@.len() - i,
    {
        if a[i] != b[i] {
            return false;
        }
        i = i + 1;
    }
    assert(a@ =~= b@);
    true
}

fn is_exempt(name: &[u8]) -> (r: bool)
    ensures
        r == (name@ == exempt_module()),
{
    let exempt: [u8; 14] = [107, 101, 114, 110, 101, 108, 58, 58, 117, 110, 119, 105, 110, 100];
    let r = bytes_equal(name, exempt.as_slice());
    assert(exempt@ =~= exempt_module());
    r
}

/// Returns true if records of severity `level` from module `modname` are emitted.
pub fn enabled(level: Level, modname: &str, table: &[FilterEntry]) -> (r: bool)
    ensures
        r == spec_enabled(level, modname.spec_bytes(), table@),
{
    let name = modname.as_bytes();
    if is_exempt(name) {
        return true;
    }
    let mut i: usize = 0;
    while i < table.len()
        invariant
            i <= table@.len(),
            name@ == modname.spec_bytes(),
            name@ != exempt_module(),
            forall|j: int| 0 <= j < i ==> table@[j].name@ != name@,
        decreases table@.len() - i,
    {
        if bytes_equal(table[i].name.as_slice(), name) {
            assert(matches_at(table@, name@, i as int));
            assert forall|k: int| matches_at(table@, name@, k) implies k == i by {
                if k < i {
                } else if k > i {
                    assert(table@[i as int].name@ == name@);
                }
            }
            return level.value() < table[i].level;
        }
        i = i + 1;
    }
    true
}

/// Records of the exempt module are emitted at every severity, whatever the table holds.
pub proof fn lemma_exempt_always_enabled(level: Level, table: Seq<FilterEntry>)
    ensures
        spec_enabled(level, exempt_module(), table),
{
}

/// For any other module the table decides: the first row for the module gives the
/// threshold, and a module without a row is emitted at every severity.
pub proof fn lemma_enabled_follows_table(level: Level, name: Seq<u8>, table: Seq<FilterEntry>)
    requires
        name != exempt_module(),
    ensures
        forall|i: int| #[trigger] matches_at(table, name, i) ==> (spec_enabled(level, name, table) <==> level.spec_value() < table[i].level),
        (forall|i: int| 0 <= i < table.len() ==> #[trigger] table[i].name@ != name) ==> spec_enabled(level, name, table),
{
    assert forall|i: int| #[trigger] matches_at(table, name, i) implies (spec_enabled(level, name, table) <==> level.spec_value() < table[i].level) by {
        let c = choose|i: int| matches_at(table, name, i);
        if c < i {
            assert(table[c].name@ == name);
        } else if c > i {
            assert(table[i].name@ == name);
        }
    }
}

} // verus!
