//! Project analysis: modules, public interfaces, statistics and dependencies.
use vstd::prelude::*;
use crate::scanner::{files_view, kind_name, symbols_view, SourceFile, SourceFileView, Symbol, SymbolView};
use self::describe::{describe_module, module_description};
use self::naming::{compute_module_name, module_name};
use self::dependencies::{declared_deps, parse_manifest, unique_deps, ManifestFiles};
use self::stats::{count_language_lines, language_stats, lines_total, stats_view, total_line_count};
use crate::text::{owned, to_chars};

pub mod naming;
pub mod prefixes;
pub mod describe;
pub mod manifest;
pub mod documents;
pub mod dependencies;
pub mod stats;

verus! {

/// A symbol as the analysis reports it.
pub struct SymbolInfo {
    pub kind: String,
    pub name: String,
    pub line: usize,
    pub is_public: bool,
}

pub struct SymbolInfoView {
    pub kind: Seq<char>,
    pub name: Seq<char>,
    pub line: nat,
    pub is_public: bool,
}

impl View for SymbolInfo {
    type V = SymbolInfoView;

    open spec fn view(&self) -> SymbolInfoView {
        SymbolInfoView {
            kind: self.kind@,
            name: self.name@,
            line: self.line as nat,
            is_public: self.is_public,
        }
    }
}

pub open spec fn infos_view(v: Seq<SymbolInfo>) -> Seq<SymbolInfoView> {
    Seq::new(v.len(), |i: int| v[i]@)
}

/// A source file seen as a module of the project.
pub struct Module {
    pub name: String,
    pub path: String,
    pub description: String,
    pub symbols: Vec<SymbolInfo>,
    pub line_count: usize,
}

pub struct ModuleView {
    pub name: Seq<char>,
    pub path: Seq<char>,
    pub description: Seq<char>,
    pub symbols: Seq<SymbolInfoView>,
    pub line_count: nat,
}

impl View for Module {
    type V = ModuleView;

    open spec fn view(&self) -> ModuleView {
        ModuleView {
            name: self.name@,
            path: self.path@,
            description: self.description@,
            symbols: infos_view(self.symbols@),
            line_count: self.line_count as nat,
        }
    }
}

pub open spec fn modules_view(v: Seq<Module>) -> Seq<ModuleView> {
    Seq::new(v.len(), |i: int| v[i]@)
}

/// A public top-level symbol and the module that holds it.
pub struct Interface {
    pub name: String,
    pub module: String,
    pub kind: String,
    pub line: usize,
}

pub struct InterfaceView {
    pub name: Seq<char>,
    pub module: Seq<char>,
    pub kind: Seq<char>,
    pub line: nat,
}

impl View for Interface {
    type V = InterfaceView;

    open spec fn view(&self) -> InterfaceView {
        InterfaceView {
            name: self.name@,
            module: self.module@,
            kind: self.kind@,
            line: self.line as nat,
        }
    }
}

pub open spec fn interfaces_view(v: Seq<Interface>) -> Seq<InterfaceView> {
    Seq::new(v.len(), |i: int| v[i]@)
}

/// Counts over all scanned files.
pub struct FileStats {
    pub total_files: usize,
    pub total_lines: usize,
    pub avg_lines_per_file: usize,
}

/// A dependency declared in a manifest file.
pub struct Dependency {
    pub name: String,
    pub version: Option<String>,
}

pub struct DependencyView {
    pub name: Seq<char>,
    pub version: Option<Seq<char>>,
}

impl View for Dependency {
    type V = DependencyView;

    open spec fn view(&self) -> DependencyView {
        DependencyView {
            name: self.name@,
            version: match self.version {
                Some(v) => Some(v@),
                None => None,
            },
        }
    }
}

pub open spec fn deps_view(v: Seq<Dependency>) -> Seq<DependencyView> {
    Seq::new(v.len(), |i: int| v[i]@)
}

// ---------------------------------------------------------------------------
// Words
// ---------------------------------------------------------------------------

pub open spec fn ends_with(s: Seq<char>, suffix: Seq<char>) -> bool {
    suffix.len() <= s.len() && s.skip(s.len() - suffix.len()) == suffix
}

/// `word` in the plural when `count` is not one.
pub open spec fn plural(word: Seq<char>, count: nat) -> Seq<char> {
    if count == 1 {
        word
    } else if ends_with(word, "s"@) || ends_with(word, "x"@) || ends_with(word, "ch"@) || ends_with(
        word,
        "sh"@,
    ) {
        word + "es"@
    } else {
        word + "s"@
    }
}

fn chars_end_with(v: &Vec<char>, suffix: &str) -> (r: bool)
    ensures
        r == ends_with(v@, suffix@),
{
    let w = to_chars(suffix);
    if w.len() > v.len() {
        return false;
    }
    crate::text::range_eq(v, v.len() - w.len(), v.len(), &w)
}

/// `word` in the plural when `count` is not one.
pub fn pluralize(word: &str, count: usize) -> (r: String)
    ensures
        r@ == plural(word@, count as nat),
{
    let mut r = owned(word);
    if count == 1 {
        return r;
    }
    let v = to_chars(word);
    if chars_end_with(&v, "s") || chars_end_with(&v, "x") || chars_end_with(&v, "ch")
        || chars_end_with(&v, "sh") {
        r.append("es");
    } else {
        r.append("s");
    }
    r
}

// ---------------------------------------------------------------------------
// Symbols of a module
// ---------------------------------------------------------------------------

pub open spec fn info_of(s: SymbolView) -> SymbolInfoView {
    SymbolInfoView { kind: kind_name(s.kind), name: s.name, line: s.line, is_public: s.is_public }
}

/// Every symbol of `syms` and of the symbols nested in them, each before its
/// nested symbols.
pub open spec fn flatten_symbols(syms: Seq<SymbolView>) -> Seq<SymbolInfoView>
    decreases syms,
{
    if syms.len() == 0 {
        Seq::empty()
    } else {
        seq![info_of(syms[0])] + flatten_symbols(syms[0].children) + flatten_symbols(
            syms.drop_first(),
        )
    }
}

pub fn symbol_to_info(sym: &Symbol) -> (r: SymbolInfo)
    ensures
        r@ == info_of(sym@),
{
    SymbolInfo { kind: sym.kind.to_string(), name: sym.name.clone(), line: sym.line, is_public: sym.is_public }
}

/// Every symbol of `symbols` and of the symbols nested in them, each before
/// its nested symbols.
pub fn collect_all_symbols(symbols: &Vec<Symbol>) -> (r: Vec<SymbolInfo>)
    ensures
        infos_view(r@) == flatten_symbols(symbols_view(symbols@)),
    decreases symbols,
{
    let ghost sv = symbols_view(symbols@);
    let mut result: Vec<SymbolInfo> = Vec::new();
    let mut i: usize = 0;
    proof {
        assert(sv.skip(0) =~= sv);
        assert(infos_view(result@) + flatten_symbols(sv) =~= flatten_symbols(sv));
    }
    while i < symbols.len()
        invariant
            i <= symbols.len(),
            sv == symbols_view(symbols@),
            infos_view(result@) + flatten_symbols(sv.skip(i as int)) == flatten_symbols(sv),
        decreases symbols.len() - i,
    {
        let sym = &symbols[i];
        proof {
            assert(decreases_to!(symbols => symbols@[i as int]));
            assert(sv[i as int] == sym@);
            assert(sv.skip(i as int)[0] == sym@);
            assert(sv.skip(i as int).drop_first() =~= sv.skip(i + 1));
            assert(sym@.children =~= symbols_view(sym.children@));
        }
        let info = symbol_to_info(sym);
        let mut nested = collect_all_symbols(&sym.children);
        let ghost before = infos_view(result@);
        result.push(info);
        proof {
            assert(infos_view(result@) =~= before.push(info@));
        }
        let ghost mid = infos_view(result@);
        result.append(&mut nested);
        proof {
            assert(infos_view(result@) =~= mid + flatten_symbols(sym@.children));
            assert(infos_view(result@) + flatten_symbols(sv.skip(i + 1)) =~= flatten_symbols(sv));
        }
        i = i + 1;
    }
    proof {
        assert(sv.skip(i as int) =~= Seq::<SymbolView>::empty());
        assert(infos_view(result@) + Seq::<SymbolInfoView>::empty() =~= infos_view(result@));
    }
    result
}

// ---------------------------------------------------------------------------
// Modules and interfaces
// ---------------------------------------------------------------------------

/// The module that a source file makes.
pub open spec fn module_of(f: SourceFileView) -> ModuleView {
    ModuleView {
        name: module_name(f.path),
        path: f.path,
        description: module_description(f.language, f.symbols),
        symbols: flatten_symbols(f.symbols),
        line_count: f.line_count,
    }
}

/// One module for each source file, in order.
pub fn group_into_modules(files: &Vec<SourceFile>) -> (r: Vec<Module>)
    ensures
        modules_view(r@) == files_view(files@).map_values(|f: SourceFileView| module_of(f)),
{
    let ghost fv = files_view(files@);
    let mut modules: Vec<Module> = Vec::new();
    let mut i: usize = 0;
    while i < files.len()
        invariant
            i <= files.len(),
            fv == files_view(files@),
            modules_view(modules@) == fv.take(i as int).map_values(|f: SourceFileView| module_of(f)),
        decreases files.len() - i,
    {
        let file = &files[i];
        let name = compute_module_name(file.path.as_str());
        let symbols = collect_all_symbols(&file.symbols);
        let description = describe_module(&file.language, &file.symbols);
        let m = Module {
            name,
            path: file.path.clone(),
            description,
            symbols,
            line_count: file.line_count,
        };
        proof {
            assert(fv[i as int] == file@);
            assert(m@ == module_of(file@));
            assert(fv.take(i + 1) =~= fv.take(i as int).push(file@));
            assert(modules_view(modules@.push(m)) =~= modules_view(modules@).push(m@));
            assert(fv.take(i + 1).map_values(|f: SourceFileView| module_of(f)) =~= fv.take(
                i as int,
            ).map_values(|f: SourceFileView| module_of(f)).push(module_of(file@)));
        }
        modules.push(m);
        i = i + 1;
    }
    proof {
        assert(fv.take(files.len() as int) =~= fv);
    }
    modules
}

/// The interfaces of the public symbols among `syms`, which module `module`
/// declares at its top level.
pub open spec fn file_interfaces(syms: Seq<SymbolView>, module: Seq<char>) -> Seq<InterfaceView>
    decreases syms.len(),
{
    if syms.len() == 0 {
        Seq::empty()
    } else {
        let rest = file_interfaces(syms.drop_last(), module);
        let s = syms.last();
        if s.is_public {
            rest.push(InterfaceView { name: s.name, module, kind: kind_name(s.kind), line: s.line })
        } else {
            rest
        }
    }
}

/// The public top-level symbols of every file, file by file.
pub open spec fn interfaces_of(files: Seq<SourceFileView>) -> Seq<InterfaceView>
    decreases files.len(),
{
    if files.len() == 0 {
        Seq::empty()
    } else {
        interfaces_of(files.drop_last()) + file_interfaces(
            files.last().symbols,
            module_name(files.last().path),
        )
    }
}

/// The public top-level symbols of every file, with the module of each.
pub fn collect_interfaces(files: &Vec<SourceFile>) -> (r: Vec<Interface>)
    ensures
        interfaces_view(r@) == interfaces_of(files_view(files@)),
{
    let ghost fv = files_view(files@);
    let mut interfaces: Vec<Interface> = Vec::new();
    let mut i: usize = 0;
    while i < files.len()
        invariant
            i <= files.len(),
            fv == files_view(files@),
            interfaces_view(interfaces@) == interfaces_of(fv.take(i as int)),
        decreases files.len() - i,
    {
        let file = &files[i];
        let module = compute_module_name(file.path.as_str());
        let ghost sv = symbols_view(file.symbols@);
        let ghost start = interfaces_view(interfaces@);
        let mut j: usize = 0;
        proof {
            assert(fv[i as int] == file@);
            assert(sv.take(0) =~= Seq::<SymbolView>::empty());
            assert(start + Seq::<InterfaceView>::empty() =~= start);
        }
        while j < file.symbols.len()
            invariant
                j <= file.symbols.len(),
                sv == symbols_view(file.symbols@),
                interfaces_view(interfaces@) == start + file_interfaces(sv.take(j as int), module@),
            decreases file.symbols.len() - j,
        {
            let sym = &file.symbols[j];
            proof {
                assert(sv[j as int] == sym@);
                assert(sv.take(j + 1).drop_last() =~= sv.take(j as int));
                assert(sv.take(j + 1).last() == sym@);
            }
            if sym.is_public {
                let it = Interface {
                    name: sym.name.clone(),
                    module: module.clone(),
                    kind: sym.kind.to_string(),
                    line: sym.line,
                };
                proof {
                    assert(interfaces_view(interfaces@.push(it)) =~= interfaces_view(
                        interfaces@,
                    ).push(it@));
                    assert(start + file_interfaces(sv.take(j as int), module@).push(it@) =~= (start
                        + file_interfaces(sv.take(j as int), module@)).push(it@));
                }
                interfaces.push(it);
            }
            j = j + 1;
        }
        proof {
            assert(sv.take(file.symbols.len() as int) =~= sv);
            assert(fv.take(i + 1).drop_last() =~= fv.take(i as int));
            assert(fv.take(i + 1).last() == file@);
        }
        i = i + 1;
    }
    proof {
        assert(fv.take(files.len() as int) =~= fv);
    }
    interfaces
}

// ---------------------------------------------------------------------------
// The analysis of a project
// ---------------------------------------------------------------------------

/// Everything known about a project: its modules, public interfaces, line
/// counts and dependencies.
pub struct ProjectAnalysis {
    pub name: String,
    pub modules: Vec<Module>,
    pub interfaces: Vec<Interface>,
    pub file_stats: FileStats,
    pub language_stats: Vec<(String, usize)>,
    pub dependencies: Vec<Dependency>,
}

/// The name of a project: that of its directory, or `project`.
pub open spec fn project_name(dir_name: Option<String>) -> Seq<char> {
    match dir_name {
        Some(n) => n@,
        None => "project"@,
    }
}

/// Analyzes the scanned `files` of a project in directory `dir_name`, whose
/// manifest files hold `manifests`.
pub fn analyze(dir_name: Option<String>, files: &Vec<SourceFile>, manifests: &ManifestFiles) -> (r:
    ProjectAnalysis)
    requires
        lines_total(files_view(files@)) <= usize::MAX,
    ensures
        r.name@ == project_name(dir_name),
        modules_view(r.modules@) == files_view(files@).map_values(|f: SourceFileView| module_of(f)),
        interfaces_view(r.interfaces@) == interfaces_of(files_view(files@)),
        r.file_stats.total_files == files.len(),
        r.file_stats.total_lines == lines_total(files_view(files@)),
        r.file_stats.avg_lines_per_file == if files.len() == 0 {
            0
        } else {
            lines_total(files_view(files@)) / (files.len() as nat)
        },
        stats_view(r.language_stats@) == language_stats(files_view(files@)),
        deps_view(r.dependencies@) == unique_deps(declared_deps(*manifests)),
{
    let name = match dir_name {
        Some(n) => n,
        None => owned("project"),
    };
    let total_lines = match total_line_count(files) {
        Some(t) => t,
        None => 0,
    };
    let avg_lines = if files.len() == 0 {
        0
    } else {
        total_lines / files.len()
    };
    let language_stats = count_language_lines(files);
    let modules = group_into_modules(files);
    let interfaces = collect_interfaces(files);
    let dependencies = parse_manifest(manifests);
    ProjectAnalysis {
        name,
        modules,
        interfaces,
        file_stats: FileStats { total_files: files.len(), total_lines, avg_lines_per_file: avg_lines },
        language_stats,
        dependencies,
    }
}

} // verus!
