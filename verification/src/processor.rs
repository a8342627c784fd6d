//! Programs that enrich definitions, and how a use of one overrides its inputs.
use vstd::prelude::*;
use crate::model::Model;
use crate::merge::{Merge, Overwrite};
use crate::cli::{DraftArguments, DraftEnvironments};
use crate::reference_value::{LazyRef, LazyRefOrValue, ReferencedValue, RefModel, same_arguments, same_environments, strings_equal};
use crate::strmap::{StrMap, Entries, same_entries};
use crate::thread::Readonly;
use crate::json::JsonMap;
use crate::definition::definition::Definition;

verus! {

/// The model of arguments that may be unresolved references.
pub type ArgumentsModel = RefModel<Vec<String>, Seq<Seq<char>>>;

/// The model of environments that may be unresolved references.
pub type EnvironmentsModel = RefModel<StrMap<String>, Entries<Seq<char>>>;

/// What a processor adds to the edge and to the metadata it ran for.
#[derive(Debug)]
pub struct Enrichment {
    pub edge: Option<JsonMap>,
    pub metadata: Option<JsonMap>,
}

/// What a processor gives back: what it adds, and the definition that the edge leads to.
#[derive(Debug)]
pub struct ProcessorResult {
    pub enrichment: Option<Enrichment>,
    pub definition: Option<Definition>,
}

/// How a program is installed before it runs.
#[derive(Debug, Clone)]
pub struct Install {
    pub arguments: Vec<DraftArguments>,
    pub program: String,
    pub environments: Vec<DraftEnvironments>,
    pub current_directory: Option<String>,
}

pub struct InstallModel {
    pub arguments: Seq<ArgumentsModel>,
    pub program: Seq<char>,
    pub environments: Seq<EnvironmentsModel>,
    pub current_directory: Option<Seq<char>>,
}

impl Model for Install {
    type M = InstallModel;

    open spec fn model(&self) -> InstallModel {
        InstallModel {
            arguments: self.arguments.model(),
            program: self.program@,
            environments: self.environments.model(),
            current_directory: self.current_directory.model(),
        }
    }

    fn duplicate(&self) -> (r: Self) {
        Install {
            arguments: self.arguments.duplicate(),
            program: self.program.clone(),
            environments: self.environments.duplicate(),
            current_directory: self.current_directory.duplicate(),
        }
    }
}

/// Merging installs: arguments and environments are appended, the program is the other's,
/// and the current directory is filled only when missing.
impl Merge for Install {
    open spec fn merged(a: InstallModel, b: InstallModel, r: InstallModel) -> bool {
        &&& r.arguments == a.arguments + b.arguments
        &&& r.program == b.program
        &&& r.environments == a.environments + b.environments
        &&& r.current_directory == Option::<String>::overwritten(a.current_directory, b.current_directory)
    }

    fn merge(&mut self, other: &Self) {
        self.arguments.merge(&other.arguments);
        self.program = other.program.clone();
        self.environments.merge(&other.environments);
        self.current_directory.overwrite(&other.current_directory);
    }
}

/// A program that enriches definitions.
#[derive(Debug, Clone)]
pub struct Processor {
    pub arguments: Vec<DraftArguments>,
    pub program: String,
    pub install: Option<Install>,
    pub environments: Vec<DraftEnvironments>,
    pub current_directory: Option<String>,
}

pub struct ProcessorModel {
    pub arguments: Seq<ArgumentsModel>,
    pub program: Seq<char>,
    pub install: Option<InstallModel>,
    pub environments: Seq<EnvironmentsModel>,
    pub current_directory: Option<Seq<char>>,
}

impl Model for Processor {
    type M = ProcessorModel;

    open spec fn model(&self) -> ProcessorModel {
        ProcessorModel {
            arguments: self.arguments.model(),
            program: self.program@,
            install: self.install.model(),
            environments: self.environments.model(),
            current_directory: self.current_directory.model(),
        }
    }

    fn duplicate(&self) -> (r: Self) {
        Processor {
            arguments: self.arguments.duplicate(),
            program: self.program.clone(),
            install: self.install.duplicate(),
            environments: self.environments.duplicate(),
            current_directory: self.current_directory.duplicate(),
        }
    }
}

/// Merging processors: arguments are appended and the program is the other's; the rest
/// stays.
impl Merge for Processor {
    open spec fn merged(a: ProcessorModel, b: ProcessorModel, r: ProcessorModel) -> bool {
        r == ProcessorModel { arguments: a.arguments + b.arguments, program: b.program, ..a }
    }

    fn merge(&mut self, other: &Self) {
        self.arguments.merge(&other.arguments);
        self.program = other.program.clone();
    }
}

/// A use of a processor, with arguments and environments of its own.
#[derive(Debug, Clone)]
pub struct ProcessorOverride<TArguments, TEnvironment, TProcessor> {
    pub arguments: Vec<TArguments>,
    pub environments: Vec<TEnvironment>,
    pub processor: TProcessor,
}

pub struct ProcessorOverrideModel<A, E, P> {
    pub arguments: Seq<A>,
    pub environments: Seq<E>,
    pub processor: P,
}

impl<A: Model, E: Model, P: Model> Model for ProcessorOverride<A, E, P> {
    type M = ProcessorOverrideModel<A::M, E::M, P::M>;

    open spec fn model(&self) -> ProcessorOverrideModel<A::M, E::M, P::M> {
        ProcessorOverrideModel {
            arguments: self.arguments.model(),
            environments: self.environments.model(),
            processor: self.processor.model(),
        }
    }

    fn duplicate(&self) -> (r: Self) {
        ProcessorOverride {
            arguments: self.arguments.duplicate(),
            environments: self.environments.duplicate(),
            processor: self.processor.duplicate(),
        }
    }
}

/// Merging uses of processors: arguments and environments are appended, the processors
/// merge.
impl<A: Model, E: Model, P: Merge> Merge for ProcessorOverride<A, E, P> {
    open spec fn merged(
        a: ProcessorOverrideModel<A::M, E::M, P::M>,
        b: ProcessorOverrideModel<A::M, E::M, P::M>,
        r: ProcessorOverrideModel<A::M, E::M, P::M>,
    ) -> bool {
        &&& r.arguments == a.arguments + b.arguments
        &&& r.environments == a.environments + b.environments
        &&& P::merged(a.processor, b.processor, r.processor)
    }

    fn merge(&mut self, other: &Self) {
        self.arguments.merge(&other.arguments);
        self.environments.merge(&other.environments);
        self.processor.merge(&other.processor);
    }
}

impl<A: Model, E: Model, P: Model> ProcessorOverride<A, E, P> {
    /// A use of `processor` with no arguments or environments of its own.
    pub fn processor(processor: &P) -> (r: Self)
        ensures
            r.model() == (ProcessorOverrideModel {
                arguments: Seq::<A::M>::empty(),
                environments: Seq::<E::M>::empty(),
                processor: processor.model(),
            }),
    {
        let r = ProcessorOverride {
            arguments: Vec::new(),
            environments: Vec::new(),
            processor: processor.duplicate(),
        };
        assert(r.arguments.model() =~= Seq::<A::M>::empty());
        assert(r.environments.model() =~= Seq::<E::M>::empty());
        r
    }

    /// This use with the arguments and environments of a use of it put before its own, as an
    /// edge's processor runs for a metadata's use of the edge.
    pub fn with(&self, arguments: Vec<A>, environments: Vec<E>) -> (r: Self)
        ensures
            r.model() == (ProcessorOverrideModel {
                arguments: arguments.model() + self.model().arguments,
                environments: environments.model() + self.model().environments,
                processor: self.model().processor,
            }),
    {
        self.from_with(arguments, environments)
    }

    /// This use with `arguments` and `environments` put before its own.
    pub fn from_with(&self, arguments: Vec<A>, environments: Vec<E>) -> (r: Self)
        ensures
            r.model() == (ProcessorOverrideModel {
                arguments: arguments.model() + self.model().arguments,
                environments: environments.model() + self.model().environments,
                processor: self.model().processor,
            }),
    {
        let mut processor = self.duplicate();
        let mut all_arguments = arguments;
        let ghost given_arguments = all_arguments.model();
        all_arguments.append(&mut processor.arguments);
        let mut all_environments = environments;
        let ghost given_environments = all_environments.model();
        all_environments.append(&mut processor.environments);
        processor.arguments = all_arguments;
        processor.environments = all_environments;
        assert(processor.arguments.model() =~= given_arguments + self.model().arguments);
        assert(processor.environments.model() =~= given_environments + self.model().environments);
        processor
    }
}

/// A use of a processor that may not be resolved yet.
pub type DraftProcessorOverride = ProcessorOverride<DraftArguments, DraftEnvironments, Option<LazyRef<Processor>>>;

/// The model of a use of a processor that may not be resolved yet.
pub type DraftProcessorOverrideModel = ProcessorOverrideModel<ArgumentsModel, EnvironmentsModel, Option<RefModel<Processor, ()>>>;

/// A use of a processor found by reference.
pub type DefinedProcessorOverride = ProcessorOverride<DraftArguments, DraftEnvironments, ReferencedValue<Readonly<Processor>>>;

/// The model of a use of a processor found by reference.
pub type DefinedProcessorOverrideModel = ProcessorOverrideModel<ArgumentsModel, EnvironmentsModel, (Seq<char>, Readonly<Processor>)>;

/// Arguments hold the same thing: the same list in place, the same unresolved reference, or
/// the same reference to shared arguments holding the same list.
pub open spec fn arguments_content_match(a: ArgumentsModel, b: ArgumentsModel) -> bool {
    match (a, b) {
        (RefModel::Value(x), RefModel::Value(y)) => x == y,
        (RefModel::Ref(x), RefModel::Ref(y)) => x == y,
        (RefModel::Referenced(x, p), RefModel::Referenced(y, q)) => x == y && (*p).model() == (*q).model(),
        _ => false,
    }
}

/// Environments hold the same thing: the same variables in place, the same unresolved
/// reference, or the same reference to shared environments holding the same variables.
pub open spec fn environments_content_match(a: EnvironmentsModel, b: EnvironmentsModel) -> bool {
    match (a, b) {
        (RefModel::Value(x), RefModel::Value(y)) => same_entries(x, y),
        (RefModel::Ref(x), RefModel::Ref(y)) => x == y,
        (RefModel::Referenced(x, p), RefModel::Referenced(y, q)) => x == y && same_entries((*p).model(), (*q).model()),
        _ => false,
    }
}

/// Two lists of arguments hold the same things, one by one.
pub open spec fn arguments_lists_match(a: Seq<ArgumentsModel>, b: Seq<ArgumentsModel>) -> bool {
    a.len() == b.len() && forall|i: int| 0 <= i < a.len() ==> #[trigger] arguments_content_match(a[i], b[i])
}

/// Two lists of environments hold the same things, one by one.
pub open spec fn environments_lists_match(a: Seq<EnvironmentsModel>, b: Seq<EnvironmentsModel>) -> bool {
    a.len() == b.len() && forall|i: int| 0 <= i < a.len() ==> #[trigger] environments_content_match(a[i], b[i])
}

/// Two installs do the same thing: the same program, directory, arguments and environments.
pub open spec fn install_content_match(a: InstallModel, b: InstallModel) -> bool {
    &&& a.program == b.program
    &&& a.current_directory == b.current_directory
    &&& arguments_lists_match(a.arguments, b.arguments)
    &&& environments_lists_match(a.environments, b.environments)
}

/// Two processors do the same thing: the same program, directory, arguments, environments
/// and install.
pub open spec fn processor_content_match(a: ProcessorModel, b: ProcessorModel) -> bool {
    &&& a.program == b.program
    &&& a.current_directory == b.current_directory
    &&& arguments_lists_match(a.arguments, b.arguments)
    &&& environments_lists_match(a.environments, b.environments)
    &&& match (a.install, b.install) {
        (Some(x), Some(y)) => install_content_match(x, y),
        (None, None) => true,
        _ => false,
    }
}

/// Two uses of processors match: argument by argument, environment by environment, by the
/// reference of the processor, and by what the processors found do. Two shared processors
/// are told apart by what they hold, not by where they are kept.
pub open spec fn matching_defined_override(a: DefinedProcessorOverrideModel, b: DefinedProcessorOverrideModel) -> bool {
    &&& a.arguments.len() == b.arguments.len()
    &&& forall|i: int| 0 <= i < a.arguments.len() ==> #[trigger] same_arguments(a.arguments[i], b.arguments[i])
    &&& a.environments.len() == b.environments.len()
    &&& forall|i: int| 0 <= i < a.environments.len() ==> #[trigger] same_environments(a.environments[i], b.environments[i])
    &&& a.processor.0 == b.processor.0
    &&& processor_content_match((*a.processor.1).model(), (*b.processor.1).model())
}

fn optional_texts_equal(a: &Option<String>, b: &Option<String>) -> (r: bool)
    ensures
        r == (a.model() == b.model()),
{
    match (a, b) {
        (Some(x), Some(y)) => *x == *y,
        (None, None) => true,
        _ => false,
    }
}

fn arguments_content_equal(a: &DraftArguments, b: &DraftArguments) -> (r: bool)
    ensures
        r == arguments_content_match(a.model(), b.model()),
{
    match (a, b) {
        (LazyRefOrValue::Value(x), LazyRefOrValue::Value(y)) => strings_equal(x, y),
        (LazyRefOrValue::Ref(x), LazyRefOrValue::Ref(y)) => *x == *y,
        (LazyRefOrValue::ReferencedValue(x), LazyRefOrValue::ReferencedValue(y)) => x.reference == y.reference
            && strings_equal(&*x.value, &*y.value),
        _ => false,
    }
}

fn environments_content_equal(a: &DraftEnvironments, b: &DraftEnvironments) -> (r: bool)
    ensures
        r == environments_content_match(a.model(), b.model()),
{
    match (a, b) {
        (LazyRefOrValue::Value(x), LazyRefOrValue::Value(y)) => *x == *y,
        (LazyRefOrValue::Ref(x), LazyRefOrValue::Ref(y)) => *x == *y,
        (LazyRefOrValue::ReferencedValue(x), LazyRefOrValue::ReferencedValue(y)) => x.reference == y.reference
            && *x.value == *y.value,
        _ => false,
    }
}

fn arguments_lists_equal(a: &Vec<DraftArguments>, b: &Vec<DraftArguments>) -> (r: bool)
    ensures
        r == arguments_lists_match(a.model(), b.model()),
{
    if a.len() != b.len() {
        return false;
    }
    let mut i: usize = 0;
    while i < a.len()
        invariant
            a@.len() == b@.len(),
            i <= a@.len(),
            forall|j: int| 0 <= j < i ==> #[trigger] arguments_content_match(a.model()[j], b.model()[j]),
        decreases a.len() - i,
    {
        assert(a.model()[i as int] == a@[i as int].model());
        assert(b.model()[i as int] == b@[i as int].model());
        if !arguments_content_equal(&a[i], &b[i]) {
            return false;
        }
        i = i + 1;
    }
    true
}

fn environments_lists_equal(a: &Vec<DraftEnvironments>, b: &Vec<DraftEnvironments>) -> (r: bool)
    ensures
        r == environments_lists_match(a.model(), b.model()),
{
    if a.len() != b.len() {
        return false;
    }
    let mut i: usize = 0;
    while i < a.len()
        invariant
            a@.len() == b@.len(),
            i <= a@.len(),
            forall|j: int| 0 <= j < i ==> #[trigger] environments_content_match(a.model()[j], b.model()[j]),
        decreases a.len() - i,
    {
        assert(a.model()[i as int] == a@[i as int].model());
        assert(b.model()[i as int] == b@[i as int].model());
        if !environments_content_equal(&a[i], &b[i]) {
            return false;
        }
        i = i + 1;
    }
    true
}

/// Whether two processors do the same thing.
pub fn processor_content_equal(a: &Processor, b: &Processor) -> (r: bool)
    ensures
        r == processor_content_match(a.model(), b.model()),
{
    if a.program != b.program || !optional_texts_equal(&a.current_directory, &b.current_directory) {
        return false;
    }
    if !arguments_lists_equal(&a.arguments, &b.arguments) || !environments_lists_equal(&a.environments, &b.environments) {
        return false;
    }
    match (&a.install, &b.install) {
        (Some(x), Some(y)) => x.program == y.program && optional_texts_equal(&x.current_directory, &y.current_directory)
            && arguments_lists_equal(&x.arguments, &y.arguments) && environments_lists_equal(&x.environments, &y.environments),
        (None, None) => true,
        _ => false,
    }
}

impl PartialEq for DefinedProcessorOverride {
    fn eq(&self, other: &Self) -> (r: bool) {
        if self.arguments.len() != other.arguments.len() || self.environments.len() != other.environments.len() {
            return false;
        }
        let mut i: usize = 0;
        while i < self.arguments.len()
            invariant
                self.arguments@.len() == other.arguments@.len(),
                i <= self.arguments@.len(),
                forall|j: int| 0 <= j < i ==> #[trigger] same_arguments(self.model().arguments[j], other.model().arguments[j]),
            decreases self.arguments.len() - i,
        {
            assert(self.model().arguments[i as int] == self.arguments@[i as int].model());
            assert(other.model().arguments[i as int] == other.arguments@[i as int].model());
            if self.arguments[i] != other.arguments[i] {
                return false;
            }
            i = i + 1;
        }
        let mut i: usize = 0;
        while i < self.environments.len()
            invariant
                self.environments@.len() == other.environments@.len(),
                i <= self.environments@.len(),
                forall|j: int| 0 <= j < i ==> #[trigger] same_environments(self.model().environments[j], other.model().environments[j]),
            decreases self.environments.len() - i,
        {
            assert(self.model().environments[i as int] == self.environments@[i as int].model());
            assert(other.model().environments[i as int] == other.environments@[i as int].model());
            if self.environments[i] != other.environments[i] {
                return false;
            }
            i = i + 1;
        }
        self.processor.reference == other.processor.reference && processor_content_equal(
            &*self.processor.value,
            &*other.processor.value,
        )
    }
}

impl vstd::std_specs::cmp::PartialEqSpecImpl for DefinedProcessorOverride {
    open spec fn obeys_eq_spec() -> bool {
        true
    }

    open spec fn eq_spec(&self, other: &DefinedProcessorOverride) -> bool {
        matching_defined_override(self.model(), other.model())
    }
}

} // verus!
