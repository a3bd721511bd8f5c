//! The names of the crates of a cargo workspace, as a build script hands
//! them to the compiler and as a crate reads them back.

use vstd::prelude::*;
use crate::fields::KeySet;

verus! {

/// The names of the crates of this workspace, separated by commas.
pub const FRAMEWORK_LIBS_WORKSPACE_MEMBERS: &'static str =
    "build_info,hello,log_utils,vergen_integration";

/// The texts joined by commas.
pub open spec fn joined(names: Seq<Seq<char>>) -> Seq<char>
    decreases names.len(),
{
    if names.len() == 0 {
        Seq::empty()
    } else if names.len() == 1 {
        names[0]
    } else {
        joined(names.drop_last()) + ","@ + names.last()
    }
}

/// The pieces of a text between its commas. A text without a comma is one
/// piece, and so is the empty text.
pub open spec fn split_on_commas(s: Seq<char>) -> Seq<Seq<char>>
    decreases s.len(),
{
    if s.len() == 0 {
        seq![Seq::empty()]
    } else {
        let before = split_on_commas(s.drop_last());
        if s.last() == ',' {
            before.push(Seq::empty())
        } else {
            before.update(before.len() - 1, before.last().push(s.last()))
        }
    }
}

/// The views of a list of texts.
pub open spec fn texts(names: Seq<String>) -> Seq<Seq<char>> {
    names.map_values(|s: String| s@)
}

/// The instruction by which a build script sets the variable that holds
/// the names of the crates of the workspace.
pub open spec fn members_instruction(names: Seq<Seq<char>>) -> Seq<char> {
    "cargo:rustc-env=CARGO_WORKSPACE_MEMBERS="@ + joined(names)
}

/// The line that a build script prints to hand the names of the crates of
/// the workspace to the compiler.
pub fn workspace_members_instruction(names: &Vec<String>) -> (line: String)
    ensures
        line@ == members_instruction(texts(names@)),
{
    let mut list = String::new();
    let n: usize = names.len();
    let mut i: usize = 0;
    assert(texts(names@).take(0) =~= Seq::<Seq<char>>::empty());
    while i < n
        invariant
            n == names@.len(),
            i <= n,
            list@ == joined(texts(names@).take(i as int)),
        decreases n - i,
    {
        let ghost upto = texts(names@).take(i + 1);
        assert(upto.drop_last() =~= texts(names@).take(i as int));
        assert(upto.last() == names@[i as int]@);
        if i > 0 {
            list.append(",");
        }
        list.append(names[i].as_str());
        assert(list@ =~= joined(upto));
        i += 1;
    }
    assert(texts(names@).take(n as int) =~= texts(names@));
    let mut line = String::from_str("cargo:rustc-env=CARGO_WORKSPACE_MEMBERS=");
    line.append(list.as_str());
    line
}

/// The names in a list separated by commas, in order.
pub fn split_members(value: &str) -> (names: Vec<String>)
    ensures
        texts(names@) == split_on_commas(value@),
{
    let n: usize = value.unicode_len();
    let mut names: Vec<String> = Vec::new();
    let mut start: usize = 0;
    let mut i: usize = 0;
    assert(value@.take(0) =~= Seq::<char>::empty());
    assert(value@.subrange(0, 0) =~= Seq::<char>::empty());
    assert(texts(names@).push(value@.subrange(0, 0)) =~= seq![Seq::<char>::empty()]);
    while i < n
        invariant
            n == value@.len(),
            start <= i <= n,
            split_on_commas(value@.take(i as int)) == texts(names@).push(
                value@.subrange(start as int, i as int),
            ),
        decreases n - i,
    {
        let ghost before = split_on_commas(value@.take(i as int));
        let ghost upto = value@.take(i + 1);
        assert(upto.drop_last() =~= value@.take(i as int));
        assert(upto.last() == value@[i as int]);
        if value.get_char(i) == ',' {
            let piece = value.substring_char(start, i);
            let ghost old_names = texts(names@);
            names.push(String::from_str(piece));
            assert(texts(names@) =~= old_names.push(piece@));
            start = i + 1;
            assert(value@.subrange(start as int, i + 1) =~= Seq::<char>::empty());
        } else {
            assert(value@.subrange(start as int, i + 1) =~= value@.subrange(
                start as int,
                i as int,
            ).push(value@[i as int]));
            assert(before.update(before.len() - 1, before.last().push(value@[i as int]))
                =~= texts(names@).push(value@.subrange(start as int, i + 1)));
        }
        i += 1;
    }
    assert(value@.take(n as int) =~= value@);
    let piece = value.substring_char(start, n);
    let ghost old_names = texts(names@);
    names.push(String::from_str(piece));
    assert(texts(names@) =~= old_names.push(piece@));
    names
}

/// The set of the names in a list separated by commas.
pub fn workspace_members(value: &str) -> (members: KeySet)
    ensures
        forall|name: Seq<char>|
            members@.contains(name) <==> split_on_commas(value@).contains(name),
{
    let names = split_members(value);
    let members = KeySet::new(names);
    assert forall|name: Seq<char>| members@.contains(name) <==> split_on_commas(
        value@,
    ).contains(name) by {
        if members@.contains(name) {
            let i = choose|i: int| 0 <= i < names@.len() && (#[trigger] names@[i])@ == name;
            assert(split_on_commas(value@)[i] == name);
        }
        if split_on_commas(value@).contains(name) {
            let i = choose|i: int|
                0 <= i < split_on_commas(value@).len() && split_on_commas(value@)[i] == name;
            assert(names@[i]@ == name);
        }
    }
    members
}

/// The names of the crates of this workspace.
pub fn framework_libs_workspace_members() -> (members: KeySet)
    ensures
        forall|name: Seq<char>|
            members@.contains(name) <==> split_on_commas(
                FRAMEWORK_LIBS_WORKSPACE_MEMBERS@,
            ).contains(name),
{
    workspace_members(FRAMEWORK_LIBS_WORKSPACE_MEMBERS)
}

} // verus!
