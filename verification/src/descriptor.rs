//! Module descriptors: the metadata a module declares about itself, with the
//! platforms it applies to and the way it wants to be run.

use vstd::prelude::*;
use vstd::string::*;

verus! {

/// A host platform, or `All` for a module that runs anywhere.
#[derive(Clone, Copy, Debug, PartialEq, Eq, Structural, Hash)]
pub enum Platform {
    Windows,
    Linux,
    MacOS,
    All,
}

/// How a module asks to be executed.
#[derive(Clone, Copy, Debug, PartialEq, Eq, Structural, Hash)]
pub enum ExecutionMode {
    /// A plain call that returns at once.
    Sync,
    /// Suspends cooperatively on the calling context only.
    LocalAsync,
    /// Suspends and may run on any worker, in parallel with others.
    GlobalAsync,
    /// A plain call that may block for long and must run off the primary context.
    Blocking,
}

/// The metadata of one module. A descriptor does not change once registered.
#[derive(Clone, Debug, PartialEq, Eq)]
pub struct ModuleDescriptor {
    /// Human-readable name; need not be unique.
    pub display_name: String,
    /// The key by which the module is selected.
    pub identifier: String,
    pub description: String,
    pub author: String,
    pub version: String,
    /// Grouping key, used for sorted listings.
    pub category: String,
    /// The platforms the module applies to, read as a set.
    pub platforms: Vec<Platform>,
    pub execution_mode: ExecutionMode,
}

/// The mathematical content of a `ModuleDescriptor`.
pub ghost struct DescriptorView {
    pub display_name: Seq<char>,
    pub identifier: Seq<char>,
    pub description: Seq<char>,
    pub author: Seq<char>,
    pub version: Seq<char>,
    pub category: Seq<char>,
    pub platforms: Seq<Platform>,
    pub execution_mode: ExecutionMode,
}

impl View for ModuleDescriptor {
    type V = DescriptorView;

    open spec fn view(&self) -> DescriptorView {
        DescriptorView {
            display_name: self.display_name@,
            identifier: self.identifier@,
            description: self.description@,
            author: self.author@,
            version: self.version@,
            category: self.category@,
            platforms: self.platforms@,
            execution_mode: self.execution_mode,
        }
    }
}

/// What a module declares about itself. The code that runs the module is
/// kept apart from it, under the module's identifier.
pub trait Module {
    /// Everything the module declares, as one value.
    spec fn metadata(&self) -> DescriptorView;

    fn name(&self) -> (out: &'static str)
        ensures
            out@ == self.metadata().display_name,
    ;

    fn identifier(&self) -> (out: &'static str)
        ensures
            out@ == self.metadata().identifier,
    ;

    fn description(&self) -> (out: &'static str)
        ensures
            out@ == self.metadata().description,
    ;

    fn author(&self) -> (out: &'static str)
        ensures
            out@ == self.metadata().author,
    ;

    fn version(&self) -> (out: &'static str)
        ensures
            out@ == self.metadata().version,
    ;

    fn category(&self) -> (out: &'static str)
        ensures
            out@ == self.metadata().category,
    ;

    fn platforms(&self) -> (out: Vec<Platform>)
        ensures
            out@ == self.metadata().platforms,
    ;

    fn execution_mode(&self) -> (out: ExecutionMode)
        ensures
            out == self.metadata().execution_mode,
    ;
}

/// The six texts of a module on one line each: name, identifier,
/// description, author, version, category.
pub open spec fn metadata_lines(m: DescriptorView) -> Seq<char> {
    m.display_name + "\n"@ + m.identifier + "\n"@ + m.description + "\n"@ + m.author + "\n"@
        + m.version + "\n"@ + m.category
}

/// The descriptor that a module declares.
pub fn descriptor_of<M: Module>(module: &M) -> (out: ModuleDescriptor)
    ensures
        out@ == module.metadata(),
{
    ModuleDescriptor {
        display_name: module.name().to_owned(),
        identifier: module.identifier().to_owned(),
        description: module.description().to_owned(),
        author: module.author().to_owned(),
        version: module.version().to_owned(),
        category: module.category().to_owned(),
        platforms: module.platforms(),
        execution_mode: module.execution_mode(),
    }
}

/// A module's metadata as six lines: name, identifier, description, author,
/// version, category.
pub fn display_text<M: Module>(module: &M) -> (out: String)
    ensures
        out@ == metadata_lines(module.metadata()),
{
    let mut out = module.name().to_owned();
    out.append("\n");
    out.append(module.identifier());
    out.append("\n");
    out.append(module.description());
    out.append("\n");
    out.append(module.author());
    out.append("\n");
    out.append(module.version());
    out.append("\n");
    out.append(module.category());
    out
}

/// The name under which `lowercase` hands back the lowercase form of a
/// string, as Unicode defines it.
pub uninterp spec fn lowercase_of(s: Seq<char>) -> Seq<char>;

/// `str::to_lowercase`: the result is a function of the characters of `s`
/// alone, named `lowercase_of`.
#[verifier::external_body]
fn lowercase(s: &str) -> (out: String)
    ensures
        out@ == lowercase_of(s@),
{
    s.to_lowercase()
}

impl ModuleDescriptor {
    /// Whether the declared platforms admit `host`: the set holds `host`
    /// itself or `All`.
    pub open spec fn supports(&self, host: Platform) -> bool {
        self.platforms@.contains(Platform::All) || self.platforms@.contains(host)
    }

    /// Whether the descriptor can be registered at all: it has an identifier
    /// and declares at least one platform.
    pub open spec fn well_formed(&self) -> bool {
        self.identifier@.len() > 0 && self.platforms@.len() > 0
    }

    /// The line that `format_module_info` writes for this descriptor.
    pub open spec fn info_line(&self) -> Seq<char> {
        self.display_name@ + " - "@ + self.description@ + " (v"@ + self.version@ + ") by "@
            + self.author@ + ": "@ + self.category@
    }

    /// The six metadata fields, one per line: name, identifier, description,
    /// author, version, category.
    pub open spec fn description_lines(&self) -> Seq<char> {
        metadata_lines(self@)
    }

    /// Builds a descriptor from its parts.
    pub fn new(
        display_name: &str,
        identifier: &str,
        description: &str,
        author: &str,
        version: &str,
        category: &str,
        platforms: Vec<Platform>,
        execution_mode: ExecutionMode,
    ) -> (out: Self)
        ensures
            out.display_name@ == display_name@,
            out.identifier@ == identifier@,
            out.description@ == description@,
            out.author@ == author@,
            out.version@ == version@,
            out.category@ == category@,
            out.platforms == platforms,
            out.execution_mode == execution_mode,
    {
        ModuleDescriptor {
            display_name: display_name.to_owned(),
            identifier: identifier.to_owned(),
            description: description.to_owned(),
            author: author.to_owned(),
            version: version.to_owned(),
            category: category.to_owned(),
            platforms,
            execution_mode,
        }
    }

    /// The descriptor of a module declared on a function: its identifier is
    /// the function's name in lowercase, and it runs synchronously.
    pub fn declared(
        function_name: &str,
        display_name: &str,
        description: &str,
        author: &str,
        version: &str,
        category: &str,
        platforms: Vec<Platform>,
    ) -> (out: Self)
        ensures
            out.display_name@ == display_name@,
            out.identifier@ == lowercase_of(function_name@),
            out.description@ == description@,
            out.author@ == author@,
            out.version@ == version@,
            out.category@ == category@,
            out.platforms == platforms,
            out.execution_mode == ExecutionMode::Sync,
    {
        ModuleDescriptor {
            display_name: display_name.to_owned(),
            identifier: lowercase(function_name),
            description: description.to_owned(),
            author: author.to_owned(),
            version: version.to_owned(),
            category: category.to_owned(),
            platforms,
            execution_mode: ExecutionMode::Sync,
        }
    }

    /// The descriptor of a module defined with nothing but an identifier and
    /// a category: the other metadata take fixed values, the module applies
    /// to every platform and runs on any worker.
    pub fn generated(function_name: &str, identifier: &str, category: &str) -> (out: Self)
        ensures
            out.display_name@ == function_name@,
            out.identifier@ == identifier@,
            out.description@ == "Automatically generated description"@,
            out.author@ == "Auto Author"@,
            out.version@ == "1.0"@,
            out.category@ == category@,
            out.platforms@ == seq![Platform::All],
            out.execution_mode == ExecutionMode::GlobalAsync,
    {
        let mut platforms: Vec<Platform> = Vec::new();
        platforms.push(Platform::All);
        ModuleDescriptor {
            display_name: function_name.to_owned(),
            identifier: identifier.to_owned(),
            description: "Automatically generated description".to_owned(),
            author: "Auto Author".to_owned(),
            version: "1.0".to_owned(),
            category: category.to_owned(),
            platforms,
            execution_mode: ExecutionMode::GlobalAsync,
        }
    }

    /// Whether the module applies to `host`.
    pub fn runs_on(&self, host: Platform) -> (b: bool)
        ensures
            b == self.supports(host),
    {
        let n = self.platforms.len();
        let mut i: usize = 0;
        while i < n
            invariant
                i <= n,
                n == self.platforms@.len(),
                forall|k: int|
                    0 <= k < i ==> self.platforms@[k] != Platform::All && self.platforms@[k]
                        != host,
            decreases n - i,
        {
            let p = self.platforms[i];
            if p == Platform::All || p == host {
                return true;
            }
            i = i + 1;
        }
        false
    }

    /// Whether the descriptor has an identifier and at least one platform.
    pub fn is_well_formed(&self) -> (b: bool)
        ensures
            b == self.well_formed(),
    {
        !self.identifier.as_str().is_empty() && self.platforms.len() > 0
    }

    /// The metadata as six lines: name, identifier, description, author,
    /// version, category.
    pub fn describe(&self) -> (out: String)
        ensures
            out@ == self.description_lines(),
    {
        let mut out = self.display_name.clone();
        out.append("\n");
        out.append(self.identifier.as_str());
        out.append("\n");
        out.append(self.description.as_str());
        out.append("\n");
        out.append(self.author.as_str());
        out.append("\n");
        out.append(self.version.as_str());
        out.append("\n");
        out.append(self.category.as_str());
        out
    }
}

/// One line that sums a module up:
/// `name - description (vversion) by author: category`.
pub fn format_module_info(module: &ModuleDescriptor) -> (out: String)
    ensures
        out@ == module.info_line(),
{
    let mut out = module.display_name.clone();
    out.append(" - ");
    out.append(module.description.as_str());
    out.append(" (v");
    out.append(module.version.as_str());
    out.append(") by ");
    out.append(module.author.as_str());
    out.append(": ");
    out.append(module.category.as_str());
    out
}

} // verus!
