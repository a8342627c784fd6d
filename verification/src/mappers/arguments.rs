//! Arguments as written, and as a definition holds them.
use vstd::prelude::*;
use crate::model::Model;
use crate::cli::DraftArguments;
use crate::reference_value::{LazyRefOrValue, RefModel};
use crate::processor::ArgumentsModel;
use crate::definition::definition::Definition;
use crate::definition::finders::{find_by_path, item_found};

verus! {

/// A written argument that starts with `#/` names arguments of the root definition.
pub open spec fn is_reference(argument: Seq<char>) -> bool {
    argument.len() >= 2 && argument[0] == '#' && argument[1] == '/'
}

/// Whether `argument` starts with `#/`.
pub fn starts_with_reference_prefix(argument: &String) -> (r: bool)
    ensures
        r == is_reference(argument@),
{
    let text = argument.as_str();
    let n = text.unicode_len();
    n >= 2 && text.get_char(0) == '#' && text.get_char(1) == '/'
}

/// The arguments a written argument stands for in `definition`: the arguments its reference
/// names when they are found, the unresolved reference otherwise, and the argument itself
/// when it is no reference.
pub open spec fn read_argument(definition: Definition, argument: Seq<char>) -> ArgumentsModel {
    if is_reference(argument) {
        match item_found(find_by_path(definition, argument), |d: Definition| d.arguments.model()) {
            Some(found) => RefModel::Referenced(argument, found),
            None => RefModel::Ref(argument),
        }
    } else {
        RefModel::Value(seq![argument])
    }
}

/// The arguments as written: an unresolved reference is left out, a resolved one is written
/// as its reference, and arguments in place are written one by one.
pub open spec fn written_arguments(arguments: Seq<ArgumentsModel>) -> Seq<Seq<char>>
    decreases arguments.len(),
{
    if arguments.len() == 0 {
        Seq::empty()
    } else {
        written_arguments(arguments.drop_last()) + match arguments.last() {
            RefModel::Ref(_) => Seq::empty(),
            RefModel::Referenced(reference, _) => seq![reference],
            RefModel::Value(values) => values,
        }
    }
}

/// The arguments that the written `dto_arguments` stand for in `definition`.
pub fn to_arguments(dto_arguments: &Vec<String>, definition: &Definition) -> (r: Vec<DraftArguments>)
    ensures
        r.model() == dto_arguments.model().map_values(|a: Seq<char>| read_argument(*definition, a)),
{
    let mut arguments: Vec<DraftArguments> = Vec::new();
    let mut i: usize = 0;
    while i < dto_arguments.len()
        invariant
            i <= dto_arguments@.len(),
            arguments@.len() == i,
            forall|j: int| 0 <= j < i ==> (#[trigger] arguments@[j]).model() == read_argument(*definition, dto_arguments@[j]@),
        decreases dto_arguments.len() - i,
    {
        let argument = &dto_arguments[i];
        let read = if starts_with_reference_prefix(argument) {
            match definition.find_argument(argument) {
                Some(found) => LazyRefOrValue::to_referenced_value(argument.clone(), found),
                None => LazyRefOrValue::Ref(argument.clone()),
            }
        } else {
            let mut values: Vec<String> = Vec::new();
            values.push(argument.clone());
            assert(values.model() =~= seq![argument@]);
            LazyRefOrValue::Value(values)
        };
        arguments.push(read);
        i = i + 1;
    }
    assert(arguments.model() =~= dto_arguments.model().map_values(|a: Seq<char>| read_argument(*definition, a)));
    arguments
}

/// The arguments as written.
pub fn from_arguments(arguments: Vec<DraftArguments>) -> (r: Vec<String>)
    ensures
        r.model() == written_arguments(arguments.model()),
{
    let ghost m = arguments.model();
    let mut written: Vec<String> = Vec::new();
    let mut i: usize = 0;
    assert(m.take(0) =~= Seq::<ArgumentsModel>::empty());
    assert(written.model() =~= Seq::<Seq<char>>::empty());
    while i < arguments.len()
        invariant
            i <= arguments@.len(),
            m == arguments.model(),
            written.model() == written_arguments(m.take(i as int)),
        decreases arguments.len() - i,
    {
        let ghost before = written.model();
        assert(m.take(i + 1).drop_last() =~= m.take(i as int));
        assert(m.take(i + 1).last() == arguments@[i as int].model());
        match &arguments[i] {
            LazyRefOrValue::Ref(_) => {
                assert(written.model() =~= before + Seq::<Seq<char>>::empty());
            },
            LazyRefOrValue::ReferencedValue(rv) => {
                written.push(rv.reference.clone());
                assert(written.model() =~= before + seq![rv.reference@]);
            },
            LazyRefOrValue::Value(values) => {
                let mut j: usize = 0;
                while j < values.len()
                    invariant
                        j <= values@.len(),
                        written.model() == before + values.model().take(j as int),
                    decreases values.len() - j,
                {
                    let ghost w0 = written.model();
                    written.push(values[j].clone());
                    assert(written.model() =~= w0.push(values@[j as int]@));
                    assert(values.model().take(j + 1) =~= values.model().take(j as int).push(values@[j as int]@));
                    assert(written.model() =~= before + values.model().take(j + 1));
                    j = j + 1;
                }
                assert(values.model().take(values@.len() as int) =~= values.model());
            },
        }
        i = i + 1;
    }
    assert(m.take(arguments@.len() as int) =~= m);
    written
}

} // verus!
