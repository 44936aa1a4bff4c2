//! Assembly of the per-device configuration sources.
//!
//! Every supported device model gets one source file. Its text is a fixed
//! comment block followed by the definition rendered for that model. A run
//! walks the catalog in order and stops at the first model that has no
//! definition; what was assembled before that point is kept.

use vstd::prelude::*;
use vstd::string::*;

verus! {

/// The comment block that opens every emitted configuration source.
pub open spec fn disclaimer_text() -> Seq<char> {
    "//\n// This file is generated by `minidsp-devtools codegen`. DO NOT EDIT.\n//\n"@
}

/// The full text of a configuration source whose rendered definition is
/// `definition`.
pub open spec fn config_text(definition: Seq<char>) -> Seq<char> {
    disclaimer_text() + definition
}

/// One device model as the generator receives it.
#[derive(Debug, PartialEq, Eq)]
pub struct Model {
    /// Name of the file that receives the model's source.
    pub filename: String,
    /// The rendered device layout and symbol table, or `None` when the
    /// model's description could not be rendered.
    pub definition: Option<String>,
}

/// Mathematical model of a [`Model`].
pub struct ModelView {
    pub filename: Seq<char>,
    pub definition: Option<Seq<char>>,
}

impl View for Model {
    type V = ModelView;

    open spec fn view(&self) -> ModelView {
        ModelView {
            filename: self.filename@,
            definition: match self.definition {
                Some(d) => Some(d@),
                None => None,
            },
        }
    }
}

/// A configuration source that is ready to be written.
#[derive(Debug, PartialEq, Eq)]
pub struct GeneratedConfig {
    pub filename: String,
    pub contents: String,
}

/// Mathematical model of a [`GeneratedConfig`].
pub struct GeneratedConfigView {
    pub filename: Seq<char>,
    pub contents: Seq<char>,
}

impl View for GeneratedConfig {
    type V = GeneratedConfigView;

    open spec fn view(&self) -> GeneratedConfigView {
        GeneratedConfigView { filename: self.filename@, contents: self.contents@ }
    }
}

/// The outcome of one generator run.
#[derive(Debug, PartialEq, Eq)]
pub struct CodegenRun {
    /// The sources to write, in catalog order.
    pub files: Vec<GeneratedConfig>,
    /// Position in the catalog of the model that stopped the run, if any.
    pub failed: Option<usize>,
}

/// The source that a model with a definition yields.
pub open spec fn generated(model: ModelView) -> GeneratedConfigView
    recommends
        model.definition is Some,
{
    GeneratedConfigView {
        filename: model.filename,
        contents: config_text(model.definition->0),
    }
}

/// `k` is the position of the first model without a definition, or the
/// catalog's length when every model has one.
pub open spec fn stops_at(catalog: Seq<Model>, k: int) -> bool {
    &&& 0 <= k <= catalog.len()
    &&& forall|j: int| 0 <= j < k ==> (#[trigger] catalog[j]).definition is Some
    &&& k < catalog.len() ==> catalog[k].definition is None
}

/// `run` is what a generator run over `catalog` produces.
pub open spec fn is_run_of(catalog: Seq<Model>, run: CodegenRun) -> bool {
    &&& stops_at(catalog, run.files@.len() as int)
    &&& forall|j: int|
        0 <= j < run.files@.len() ==> (#[trigger] run.files@[j])@ == generated(catalog[j]@)
    &&& run.failed == if run.files@.len() < catalog.len() {
        Some(run.files@.len() as usize)
    } else {
        None
    }
}

/// Returns the comment block that opens every emitted configuration source.
pub fn disclaimer() -> (header: &'static str)
    ensures
        header@ == disclaimer_text(),
{
    "//\n// This file is generated by `minidsp-devtools codegen`. DO NOT EDIT.\n//\n"
}

/// Assembles the text of one configuration source: the comment block,
/// then the definition, with nothing added between or after them.
pub fn gen(definition: &str) -> (text: String)
    ensures
        text@ == config_text(definition@),
{
    let header = String::from_str(disclaimer());
    header.concat(definition)
}

/// Runs the generator over `catalog`.
///
/// Models are taken in catalog order. Each model with a definition yields
/// one source named after the model. The run stops at the first model
/// without a definition and reports its position; the sources assembled
/// before it are returned unchanged.
pub fn codegen_main(catalog: &Vec<Model>) -> (run: CodegenRun)
    ensures
        is_run_of(catalog@, run),
{
    let mut files: Vec<GeneratedConfig> = Vec::new();
    let mut i: usize = 0;
    while i < catalog.len()
        invariant
            i <= catalog.len(),
            files@.len() == i,
            forall|j: int| 0 <= j < i ==> (#[trigger] catalog@[j]).definition is Some,
            forall|j: int| 0 <= j < i ==> (#[trigger] files@[j])@ == generated(catalog@[j]@),
        decreases catalog.len() - i,
    {
        let model = &catalog[i];
        match &model.definition {
            Some(definition) => {
                let file = GeneratedConfig {
                    filename: model.filename.clone(),
                    contents: gen(definition.as_str()),
                };
                files.push(file);
            },
            None => {
                return CodegenRun { files, failed: Some(i) };
            },
        }
        i += 1;
    }
    CodegenRun { files, failed: None }
}

/// The supported device models, in the order in which a run takes them.
pub open spec fn catalog_names() -> Seq<Seq<char>> {
    seq![
        "m2x4hd"@,
        "msharc4x8"@,
        "m4x10hd"@,
        "shd"@,
        "ddrc24"@,
        "nanodigi2x8"@,
        "ddrc88bm"@,
        "c8x12v2"@,
        "m10x10hd"@,
    ]
}

/// Returns the names of the supported device models, in the order in
/// which a run takes them.
pub fn supported_models() -> (names: Vec<&'static str>)
    ensures
        names@.len() == catalog_names().len(),
        forall|i: int| 0 <= i < names@.len() ==> (#[trigger] names@[i])@ == catalog_names()[i],
{
    let mut names: Vec<&'static str> = Vec::new();
    names.push("m2x4hd");
    names.push("msharc4x8");
    names.push("m4x10hd");
    names.push("shd");
    names.push("ddrc24");
    names.push("nanodigi2x8");
    names.push("ddrc88bm");
    names.push("c8x12v2");
    names.push("m10x10hd");
    names
}

/// A run is determined by the models it is given: two runs over catalogs
/// that hold the same models stop at the same place and produce the same
/// sources, name for name and character for character.
pub proof fn lemma_runs_agree(
    first: Seq<Model>,
    second: Seq<Model>,
    one: CodegenRun,
    other: CodegenRun,
)
    requires
        first.len() == second.len(),
        forall|i: int| 0 <= i < first.len() ==> (#[trigger] first[i])@ == second[i]@,
        is_run_of(first, one),
        is_run_of(second, other),
    ensures
        one.failed == other.failed,
        one.files@.len() == other.files@.len(),
        forall|j: int|
            0 <= j < one.files@.len() ==> (#[trigger] one.files@[j])@ == other.files@[j]@,
{
    let a = one.files@.len() as int;
    let b = other.files@.len() as int;
    if a < b {
        assert(first[a]@ == second[a]@);
        assert(second[a].definition is Some);
    }
    if b < a {
        assert(first[b]@ == second[b]@);
        assert(first[b].definition is Some);
    }
    assert forall|j: int| 0 <= j < one.files@.len() implies (#[trigger] one.files@[j])@
        == other.files@[j]@ by {
        assert(first[j]@ == second[j]@);
        assert(other.files@[j]@ == generated(second[j]@));
    }
}

/// A model that stops a run takes nothing from the models before it: the
/// source of every earlier model is the one that the model yields by
/// itself.
pub proof fn lemma_earlier_sources_stand(catalog: Seq<Model>, run: CodegenRun, j: int)
    requires
        is_run_of(catalog, run),
        0 <= j < run.files@.len(),
    ensures
        j < catalog.len(),
        catalog[j].definition is Some,
        run.files@[j]@.filename == catalog[j].filename@,
        run.files@[j]@.contents == disclaimer_text() + catalog[j].definition->0@,
{
}

} // verus!
