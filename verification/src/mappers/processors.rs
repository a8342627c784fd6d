//! Uses of processors as written, and as a definition holds them.
use vstd::prelude::*;
use crate::model::Model;
use crate::strmap::lookup;
use crate::reference_value::{LazyRef, RefModel};
use crate::processor::{ProcessorOverride, DraftProcessorOverride, DraftProcessorOverrideModel, ProcessorOverrideModel};
use crate::dto::{ProcessorOverrideDto, ProcessorOverrideDtoModel, ReferenceOrObjectDto, ReferenceOrObjectModel, EnvironmentDtoModel};
use crate::definition::definition::Definition;
use crate::mappers::arguments::{is_reference, read_argument, to_arguments};
use crate::mappers::environments::{read_environment, to_environments};

verus! {

/// A reference without the `#/` prefixes it starts with.
pub open spec fn strip_reference_prefix(reference: Seq<char>) -> Seq<char>
    decreases reference.len(),
{
    if is_reference(reference) {
        strip_reference_prefix(reference.subrange(2, reference.len() as int))
    } else {
        reference
    }
}

/// `reference` without the `#/` prefixes it starts with.
pub fn trim_reference_prefix(reference: &String) -> (r: String)
    ensures
        r@ == strip_reference_prefix(reference@),
{
    let text = reference.as_str();
    let n = text.unicode_len();
    let mut start: usize = 0;
    let ghost s = reference@;
    assert(s.subrange(0, n as int) =~= s);
    while start < n && n - start >= 2 && text.get_char(start) == '#' && text.get_char(start + 1) == '/'
        invariant
            n == s.len(),
            text@ == s,
            start <= n,
            strip_reference_prefix(s.subrange(start as int, n as int)) == strip_reference_prefix(s),
        decreases n - start,
    {
        let ghost rest = s.subrange(start as int, n as int);
        assert(is_reference(rest));
        assert(rest.subrange(2, rest.len() as int) =~= s.subrange(start + 2, n as int));
        start = start + 2;
    }
    let ghost rest = s.subrange(start as int, n as int);
    assert(!is_reference(rest));
    text.substring_char(start, n).to_owned()
}

/// The use of a processor that a written use stands for in `definition`. A use that names its
/// processor takes its arguments and environments when the processor is found, and keeps
/// only the unresolved reference otherwise; a use that names none keeps its arguments and
/// environments and has no processor.
pub open spec fn read_processor_override(definition: Definition, written: ProcessorOverrideDtoModel) -> DraftProcessorOverrideModel {
    let arguments = written.arguments.map_values(|a: Seq<char>| read_argument(definition, a));
    let environments = written.environments.map_values(|e: EnvironmentDtoModel| read_environment(definition, e));
    match written.reference {
        Some(reference) => match lookup(definition.processors.model(), strip_reference_prefix(reference)) {
            Some(found) => ProcessorOverrideModel {
                arguments,
                environments,
                processor: Some(RefModel::Referenced(reference, found)),
            },
            None => ProcessorOverrideModel {
                arguments: Seq::empty(),
                environments: Seq::empty(),
                processor: Some(RefModel::Ref(reference)),
            },
        },
        None => ProcessorOverrideModel { arguments, environments, processor: None },
    }
}

/// The use of a processor that a written reference or use stands for in `definition`: a bare
/// reference uses the processor it names, found or not, with nothing of its own.
pub open spec fn read_node_processor(definition: Definition, written: ReferenceOrObjectModel<ProcessorOverrideDtoModel>) -> DraftProcessorOverrideModel {
    match written {
        ReferenceOrObjectModel::Reference(reference) => ProcessorOverrideModel {
            arguments: Seq::empty(),
            environments: Seq::empty(),
            processor: Some(match lookup(definition.processors.model(), strip_reference_prefix(reference)) {
                Some(found) => RefModel::Referenced(reference, found),
                None => RefModel::Ref(reference),
            }),
        },
        ReferenceOrObjectModel::Object(processor_override) => read_processor_override(definition, processor_override),
    }
}

/// The use of a processor that `node_processor` stands for in `definition`.
pub fn to_node_processor(node_processor: &ReferenceOrObjectDto<ProcessorOverrideDto>, definition: &Definition) -> (r: DraftProcessorOverride)
    ensures
        r.model() == read_node_processor(*definition, node_processor.model()),
{
    match node_processor {
        ReferenceOrObjectDto::Reference(reference) => {
            let processor = match definition.processors.get(&trim_reference_prefix(reference)) {
                Some(found) => LazyRef::new_referenced_value(reference.clone(), found.duplicate()),
                None => LazyRef::Ref(reference.clone()),
            };
            DraftProcessorOverride::processor(&Some(processor))
        },
        ReferenceOrObjectDto::Object(processor_override) => to_processor_override(processor_override, definition),
    }
}

/// The use of a processor that `processor_override` stands for in `definition`.
pub fn to_processor_override(processor_override: &ProcessorOverrideDto, definition: &Definition) -> (r: DraftProcessorOverride)
    ensures
        r.model() == read_processor_override(*definition, processor_override.model()),
{
    match &processor_override.reference {
        Some(reference) => match definition.processors.get(&trim_reference_prefix(reference)) {
            Some(found) => ProcessorOverride {
                arguments: to_arguments(&processor_override.arguments, definition),
                environments: to_environments(&processor_override.environments, definition),
                processor: Some(LazyRef::new_referenced_value(reference.clone(), found.duplicate())),
            },
            None => DraftProcessorOverride::processor(&Some(LazyRef::Ref(reference.clone()))),
        },
        None => ProcessorOverride {
            arguments: to_arguments(&processor_override.arguments, definition),
            environments: to_environments(&processor_override.environments, definition),
            processor: None,
        },
    }
}

} // verus!
