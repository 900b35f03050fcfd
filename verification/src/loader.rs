//! Where a module is looked for, and which modules are being loaded.
//!
//! The library decides on paths as texts with `/` between their parts; who
//! drives it looks at the file system and hands back the paths it found.

use vstd::prelude::*;
use vstd::string::{StrSliceExecFns, StringExecFns};
use crate::heap::text_views;
use crate::stdlib::{is_embedded_stdlib, MATH_PATH};
use crate::text::{decimal, decimal_text, ends_with, find_text, occurs, occurs_at, starts_with};

verus! {

pub const EXTENSION: &'static str = ".pns";
pub const SLASH: &'static str = "/";
pub const DOT: &'static str = ".";
pub const HERE: &'static str = "./";
pub const UP: &'static str = "../";
pub const PARENT: &'static str = "..";
pub const STDLIB_PREFIX: &'static str = "стд/";
pub const NOTHING: &'static str = "";

pub const ABSOLUTE_MISSING: &'static str = "Модуль не найден по абсолютному пути: ";
pub const RELATIVE_MISSING: &'static str = "Модуль не найден по относительному пути: ";
pub const DEFAULT_MISSING: &'static str = "Модуль не найден: ";
pub const NO_PARENT: &'static str = "Не удалось получить родительский каталог для ";
pub const CYCLE: &'static str = "Обнаружена циклическая зависимость модулей:\n";
pub const INDENT: &'static str = "  ";
pub const NUMBER_END: &'static str = ". ";
pub const NEWLINE: &'static str = "\n";
pub const CYCLE_MARK: &'static str = " (цикл!)\n";

/// The place of the last `/` of a path.
pub open spec fn last_slash(path: Seq<char>, at: int) -> bool {
    &&& 0 <= at < path.len()
    &&& path[at] == '/'
    &&& forall|j: int| at < j < path.len() ==> path[j] != '/'
}

pub open spec fn has_slash(path: Seq<char>) -> bool {
    exists|i: int| 0 <= i < path.len() && path[i] == '/'
}

/// The last part of a path: what stands behind its last `/`.
pub open spec fn file_name(path: Seq<char>) -> Seq<char> {
    if has_slash(path) {
        path.subrange((choose|at: int| last_slash(path, at)) + 1, path.len() as int)
    } else {
        path
    }
}

/// Whether the last part of a path has an extension: a `.` that is not
/// its first character.
pub open spec fn has_extension(path: Seq<char>) -> bool {
    let name = file_name(path);
    name != PARENT@ && exists|i: int| 1 <= i < name.len() && name[i] == '.'
}

/// The path of the source file of a module: the path itself where its
/// last part has an extension or is no name, else with `.pns` behind it.
pub open spec fn with_extension(path: Seq<char>) -> Seq<char> {
    let name = file_name(path);
    if name.len() == 0 || name == PARENT@ || has_extension(path) {
        path
    } else {
        path + EXTENSION@
    }
}

/// The directory of a path: what stands before its last `/`; for a path
/// without one the empty path, for one directly under the root the root.
/// The root and the empty path have none.
pub open spec fn parent_of(path: Seq<char>) -> Option<Seq<char>> {
    if path.len() == 0 || path == SLASH@ {
        None
    } else if has_slash(path) {
        let at = choose|at: int| last_slash(path, at);
        if at == 0 {
            Some(SLASH@)
        } else {
            Some(path.subrange(0, at))
        }
    } else {
        Some(Seq::empty())
    }
}

/// A path under a directory: the path itself where it starts at the root
/// or the directory is empty, else the two with one `/` between them.
pub open spec fn joined(base: Seq<char>, path: Seq<char>) -> Seq<char> {
    if occurs_at(path, SLASH@, 0) || base.len() == 0 {
        path
    } else if base.len() > 0 && base.last() == '/' {
        base + path
    } else {
        base + SLASH@ + path
    }
}

/// The place of the last `/` of a path.
fn find_last_slash(path: &str) -> (r: Option<usize>)
    ensures
        match r {
            Some(at) => last_slash(path@, at as int) && (choose|i: int| last_slash(path@, i)) == at,
            None => !has_slash(path@),
        },
        r is Some <==> has_slash(path@),
{
    let n: usize = path.unicode_len();
    let mut i: usize = n;
    while i > 0
        invariant
            i <= n,
            n == path@.len(),
            forall|j: int| i <= j < n ==> path@[j] != '/',
        decreases i,
    {
        if path.get_char(i - 1) == '/' {
            proof {
                let at = (i - 1) as int;
                assert(last_slash(path@, at));
                let chosen = choose|k: int| last_slash(path@, k);
                assert(last_slash(path@, chosen));
                if chosen < at {
                    assert(path@[at] != '/');
                }
                if at < chosen {
                    assert(path@[chosen] != '/');
                }
            }
            return Some(i - 1);
        }
        i = i - 1;
    }
    None
}

/// The last part of a path: what stands behind its last `/`, the whole
/// path where it has none. A path is a text here and `/` is what parts it,
/// on every machine; a `/` at the end leaves an empty last part, and two
/// in a row part an empty name.
pub fn last_part(path: &str) -> (r: String)
    ensures
        r@ == file_name(path@),
{
    name_of(path)
}

fn name_of(path: &str) -> (r: String)
    ensures
        r@ == file_name(path@),
{
    let n: usize = path.unicode_len();
    match find_last_slash(path) {
        Some(at) => {
            assert(at < n);
            path.substring_char(at + 1, n).to_string()
        },
        None => path.to_string(),
    }
}

fn extended(path: &str) -> (r: bool)
    ensures
        r == has_extension(path@),
{
    let name = name_of(path);
    if crate::text::is_text(&name, PARENT) {
        return false;
    }
    let n: usize = name.as_str().unicode_len();
    let mut i: usize = 1;
    while i < n
        invariant
            1 <= i,
            n == name@.len(),
            name@ == file_name(path@),
            name@ != PARENT@,
            forall|j: int| 1 <= j < i ==> name@[j] != '.',
        decreases n - i,
    {
        if name.as_str().get_char(i) == '.' {
            assert(1 <= i < name@.len() && name@[i as int] == '.');
            return true;
        }
        i = i + 1;
    }
    false
}

/// The path of the source file of a module: the path with `.pns` behind
/// it, unless its last part is empty, is `..`, or has a `.` behind its
/// first character.
pub fn source_path(path: &str) -> (r: String)
    ensures
        r@ == with_extension(path@),
{
    let name = name_of(path);
    if name.as_str().unicode_len() == 0 || crate::text::is_text(&name, PARENT) || extended(path) {
        path.to_string()
    } else {
        path.to_string().concat(EXTENSION)
    }
}

/// The directory of a path: what stands before its last `/`; `/` for a
/// path directly under it, the empty path for a path without `/`, and
/// none for `/` and for the empty path. Nothing is made of `.` and `..`,
/// and a `/` at the end or two in a row are taken as they are written.
pub fn parent_path(path: &str) -> (r: Option<String>)
    ensures
        match r {
            Some(dir) => parent_of(path@) == Some(dir@),
            None => parent_of(path@) is None,
        },
{
    let text = path.to_string();
    if path.unicode_len() == 0 || crate::text::is_text(&text, SLASH) {
        return None;
    }
    match find_last_slash(path) {
        Some(at) => if at == 0 {
            Some(SLASH.to_string())
        } else {
            Some(path.substring_char(0, at).to_string())
        },
        None => {
            let empty = String::new();
            Some(empty)
        },
    }
}

/// A path under a directory: `path` itself where it begins with `/` or
/// the directory is empty, else the directory, one `/` between where the
/// directory does not end with one, and `path`.
pub fn join_path(base: &str, path: &str) -> (r: String)
    ensures
        r@ == joined(base@, path@),
{
    let n: usize = base.unicode_len();
    if starts_with(path, SLASH) || n == 0 {
        path.to_string()
    } else if base.get_char(n - 1) == '/' {
        base.to_string().concat(path)
    } else {
        base.to_string().concat(SLASH).concat(path)
    }
}

/// One place to look for a module.
#[derive(Debug, PartialEq)]
pub struct Candidate {
    pub path: String,
    /// Whether the path that is found is to be made canonical.
    pub canonicalize: bool,
}

/// Where a module is to be found.
#[derive(Debug, PartialEq)]
pub enum Resolution {
    /// The module is embedded; this is its path.
    Embedded(String),
    /// The first of these paths that exists is the module; where none
    /// does, `missing` is the error.
    Probe { candidates: Vec<Candidate>, missing: String },
    /// The module cannot be looked for.
    Failed(String),
}

pub struct CandidateView {
    pub path: Seq<char>,
    pub canonicalize: bool,
}

pub enum ResolutionView {
    Embedded(Seq<char>),
    Probe { candidates: Seq<CandidateView>, missing: Seq<char> },
    Failed(Seq<char>),
}

impl View for Candidate {
    type V = CandidateView;

    open spec fn view(&self) -> CandidateView {
        CandidateView { path: self.path@, canonicalize: self.canonicalize }
    }
}

impl View for Resolution {
    type V = ResolutionView;

    open spec fn view(&self) -> ResolutionView {
        match *self {
            Resolution::Embedded(path) => ResolutionView::Embedded(path@),
            Resolution::Probe { candidates, missing } => ResolutionView::Probe {
                candidates: candidates@.map_values(|c: Candidate| c@),
                missing: missing@,
            },
            Resolution::Failed(message) => ResolutionView::Failed(message@),
        }
    }
}

/// The name of a module without the extension of its file.
pub open spec fn bare(path: Seq<char>) -> Seq<char> {
    if EXTENSION@.len() <= path.len() && occurs_at(path, EXTENSION@, path.len() - EXTENSION@.len()) {
        path.subrange(0, path.len() - EXTENSION@.len())
    } else {
        path
    }
}

/// The directory that a module is looked for in: that of the file that
/// imports it, or the current directory where no file does.
pub open spec fn base_of(current_dir: Seq<char>, from_file: Option<Seq<char>>) -> Option<Seq<char>> {
    match from_file {
        Some(file) => parent_of(file),
        None => Some(current_dir),
    }
}

/// Where the module at `path` is to be found. An embedded module comes
/// first; then a path from the root; then a path that starts with `./` or
/// `../`, under the directory of the importing file; any other path under
/// the directory of the standard library, where one is set, and then under
/// the directory of the importing file.
pub open spec fn resolution(
    stdlib: Option<Seq<char>>,
    current_dir: Seq<char>,
    path: Seq<char>,
    from_file: Option<Seq<char>>,
) -> ResolutionView {
    let base = base_of(current_dir, from_file);
    if bare(path) == MATH_PATH@ {
        ResolutionView::Embedded(bare(path) + EXTENSION@)
    } else if occurs_at(path, SLASH@, 0) {
        ResolutionView::Probe {
            candidates: seq![CandidateView { path: with_extension(path), canonicalize: false }],
            missing: ABSOLUTE_MISSING@ + path,
        }
    } else if occurs_at(path, HERE@, 0) || occurs_at(path, UP@, 0) {
        match base {
            Some(dir) => ResolutionView::Probe {
                candidates: seq![CandidateView { path: with_extension(joined(dir, path)), canonicalize: true }],
                missing: RELATIVE_MISSING@ + path,
            },
            None => ResolutionView::Failed(NO_PARENT@ + from_file->Some_0),
        }
    } else {
        let library: Seq<CandidateView> = match stdlib {
            Some(dir) => seq![CandidateView { path: with_extension(joined(dir, path)), canonicalize: false }],
            None => Seq::empty(),
        };
        match base {
            Some(dir) => ResolutionView::Probe {
                candidates: library.push(
                    CandidateView { path: with_extension(joined(dir, path)), canonicalize: true },
                ),
                missing: DEFAULT_MISSING@ + path,
            },
            None => ResolutionView::Probe { candidates: library, missing: NO_PARENT@ + from_file->Some_0 },
        }
    }
}

/// The module path inside a file path: what stands from the first `стд/`
/// on, without the extension; none where there is no `стд/` or no
/// extension.
pub open spec fn stdlib_module(path: Seq<char>) -> Option<Seq<char>> {
    if occurs(path, STDLIB_PREFIX@) {
        let at = choose|at: int|
            occurs_at(path, STDLIB_PREFIX@, at) && forall|j: int|
                0 <= j < at ==> !occurs_at(path, STDLIB_PREFIX@, j);
        let module = path.subrange(at, path.len() as int);
        if EXTENSION@.len() <= module.len() && occurs_at(module, EXTENSION@, module.len() - EXTENSION@.len()) {
            Some(module.subrange(0, module.len() - EXTENSION@.len()))
        } else {
            None
        }
    } else {
        None
    }
}

/// Whether a path is to be made canonical before it is compared with
/// others: every path but that of an embedded module.
pub open spec fn wants_canonical(path: Seq<char>) -> bool {
    !(stdlib_module(path) matches Some(module) && module == MATH_PATH@)
}

/// The first `n` lines of the list of modules that are being loaded.
pub open spec fn cycle_lines(stack: Seq<Seq<char>>, n: nat) -> Seq<char>
    decreases n,
{
    if n == 0 {
        Seq::empty()
    } else {
        cycle_lines(stack, (n - 1) as nat) + INDENT@ + decimal_text(n) + NUMBER_END@ + stack[n - 1] + NEWLINE@
    }
}

/// The modules that are being loaded, numbered, with the one that closes
/// the cycle last.
pub open spec fn cycle_text(stack: Seq<Seq<char>>, path: Seq<char>) -> Seq<char> {
    cycle_lines(stack, stack.len()) + INDENT@ + decimal_text(stack.len() + 1) + NUMBER_END@ + path
        + CYCLE_MARK@
}

pub open spec fn listed(items: Seq<Seq<char>>, path: Seq<char>) -> bool {
    exists|i: int| 0 <= i < items.len() && #[trigger] items[i] == path
}

pub open spec fn first_listed(items: Seq<Seq<char>>, path: Seq<char>, i: int) -> bool {
    &&& 0 <= i < items.len()
    &&& items[i] == path
    &&& forall|j: int| 0 <= j < i ==> #[trigger] items[j] != path
}

fn position(items: &Vec<String>, path: &str) -> (r: Option<usize>)
    ensures
        match r {
            Some(i) => first_listed(text_views(items@), path@, i as int),
            None => !listed(text_views(items@), path@),
        },
{
    let wanted = path.to_string();
    let mut i: usize = 0;
    while i < items.len()
        invariant
            i <= items.len(),
            wanted@ == path@,
            forall|j: int| 0 <= j < i ==> #[trigger] text_views(items@)[j] != path@,
        decreases items.len() - i,
    {
        if items[i] == wanted {
            assert(text_views(items@)[i as int] == path@);
            return Some(i);
        }
        i = i + 1;
    }
    None
}

/// Finds modules and keeps track of which are being loaded.
#[derive(Debug)]
pub struct ModuleLoader {
    /// The directory of the standard library.
    pub stdlib_path: Option<String>,
    /// The directory that paths are relative to where no file imports.
    pub current_dir: String,
    /// The modules that are being loaded, the outermost first.
    pub loading_stack: Vec<String>,
    /// The modules that were loaded.
    pub resolved_cache: Vec<String>,
}

impl ModuleLoader {
    /// A loader without a standard library directory, in the directory `.`.
    pub fn new() -> (r: Self)
        ensures
            r.stdlib_path is None,
            r.current_dir@ == DOT@,
            r.loading_stack@.len() == 0,
            r.resolved_cache@.len() == 0,
    {
        ModuleLoader {
            stdlib_path: None,
            current_dir: DOT.to_string(),
            loading_stack: Vec::new(),
            resolved_cache: Vec::new(),
        }
    }

    /// A loader with the standard library in `stdlib_path`.
    pub fn with_stdlib(stdlib_path: String) -> (r: Self)
        ensures
            r.stdlib_path == Some(stdlib_path),
            r.current_dir@ == DOT@,
            r.loading_stack@.len() == 0,
            r.resolved_cache@.len() == 0,
    {
        ModuleLoader {
            stdlib_path: Some(stdlib_path),
            current_dir: DOT.to_string(),
            loading_stack: Vec::new(),
            resolved_cache: Vec::new(),
        }
    }

    pub fn set_current_dir(&mut self, dir: String)
        ensures
            final(self).current_dir == dir,
            final(self).stdlib_path == old(self).stdlib_path,
            final(self).loading_stack == old(self).loading_stack,
            final(self).resolved_cache == old(self).resolved_cache,
    {
        self.current_dir = dir;
    }

    /// Where the module at `path` is to be found.
    pub fn resolve_path(&self, path: &str, from_file: Option<&str>) -> (r: Resolution)
        ensures
            r@ == resolution(
                match self.stdlib_path {
                    Some(dir) => Some(dir@),
                    None => None,
                },
                self.current_dir@,
                path@,
                match from_file {
                    Some(file) => Some(file@),
                    None => None,
                },
            ),
    {
        let n: usize = path.unicode_len();
        let normalized: String = if ends_with(path, EXTENSION) {
            proof {
                reveal_strlit(".pns");
            }
            path.substring_char(0, n - 4).to_string()
        } else {
            path.to_string()
        };
        if is_embedded_stdlib(normalized.as_str()) {
            return Resolution::Embedded(normalized.concat(EXTENSION));
        }
        if starts_with(path, SLASH) {
            let mut candidates: Vec<Candidate> = Vec::new();
            candidates.push(Candidate { path: source_path(path), canonicalize: false });
            let r = Resolution::Probe { candidates, missing: ABSOLUTE_MISSING.to_string().concat(path) };
            proof {
                assert(r@->Probe_candidates =~= seq![
                    CandidateView { path: with_extension(path@), canonicalize: false },
                ]);
            }
            return r;
        }
        let base: Option<String> = match from_file {
            Some(file) => parent_path(file),
            None => Some(self.current_dir.clone()),
        };
        if starts_with(path, HERE) || starts_with(path, UP) {
            return match base {
                Some(dir) => {
                    let mut candidates: Vec<Candidate> = Vec::new();
                    let found = source_path(join_path(dir.as_str(), path).as_str());
                    candidates.push(Candidate { path: found, canonicalize: true });
                    let r = Resolution::Probe { candidates, missing: RELATIVE_MISSING.to_string().concat(path) };
                    proof {
                        assert(r@->Probe_candidates =~= seq![
                            CandidateView { path: with_extension(joined(dir@, path@)), canonicalize: true },
                        ]);
                    }
                    r
                },
                None => match from_file {
                    Some(file) => Resolution::Failed(NO_PARENT.to_string().concat(file)),
                    None => Resolution::Failed(NO_PARENT.to_string()),
                },
            };
        }
        let mut candidates: Vec<Candidate> = Vec::new();
        match &self.stdlib_path {
            Some(dir) => {
                let found = source_path(join_path(dir.as_str(), path).as_str());
                candidates.push(Candidate { path: found, canonicalize: false });
            },
            None => {},
        }
        let ghost library = candidates@.map_values(|c: Candidate| c@);
        proof {
            if self.stdlib_path is Some {
                let dir = self.stdlib_path->Some_0;
                assert(library =~= seq![
                    CandidateView { path: with_extension(joined(dir@, path@)), canonicalize: false },
                ]);
            } else {
                assert(library =~= Seq::empty());
            }
        }
        match base {
            Some(dir) => {
                let found = source_path(join_path(dir.as_str(), path).as_str());
                candidates.push(Candidate { path: found, canonicalize: true });
                let r = Resolution::Probe { candidates, missing: DEFAULT_MISSING.to_string().concat(path) };
                proof {
                    assert(r@->Probe_candidates =~= library.push(
                        CandidateView { path: with_extension(joined(dir@, path@)), canonicalize: true },
                    ));
                }
                r
            },
            None => match from_file {
                Some(file) => Resolution::Probe { candidates, missing: NO_PARENT.to_string().concat(file) },
                None => Resolution::Probe { candidates, missing: NO_PARENT.to_string() },
            },
        }
    }

    /// The module path inside a file path.
    pub fn extract_stdlib_module_path(full_path: &str) -> (r: Option<String>)
        ensures
            match r {
                Some(module) => stdlib_module(full_path@) == Some(module@),
                None => stdlib_module(full_path@) is None,
            },
    {
        match find_text(full_path, STDLIB_PREFIX) {
            Some(at) => {
                proof {
                    let chosen = choose|k: int|
                        occurs_at(full_path@, STDLIB_PREFIX@, k) && forall|j: int|
                            0 <= j < k ==> !occurs_at(full_path@, STDLIB_PREFIX@, j);
                    if chosen < at {
                        assert(!occurs_at(full_path@, STDLIB_PREFIX@, chosen));
                    }
                    if at < chosen {
                        assert(!occurs_at(full_path@, STDLIB_PREFIX@, at as int));
                    }
                    reveal_strlit(".pns");
                }
                let module = full_path.substring_char(at, full_path.unicode_len());
                if ends_with(module, EXTENSION) {
                    Some(module.substring_char(0, module.unicode_len() - 4).to_string())
                } else {
                    None
                }
            },
            None => None,
        }
    }

    /// Whether a path is to be made canonical before it is handed to the
    /// loader.
    pub fn needs_canonical(path: &str) -> (r: bool)
        ensures
            r == wants_canonical(path@),
    {
        match ModuleLoader::extract_stdlib_module_path(path) {
            Some(module) => !is_embedded_stdlib(module.as_str()),
            None => true,
        }
    }

    /// The modules that are being loaded, with the one that closes the
    /// cycle.
    pub fn format_cycle(&self, new_path: &str) -> (r: String)
        ensures
            r@ == cycle_text(text_views(self.loading_stack@), new_path@),
    {
        let mut r = String::new();
        let mut i: usize = 0;
        while i < self.loading_stack.len()
            invariant
                i <= self.loading_stack.len(),
                r@ == cycle_lines(text_views(self.loading_stack@), i as nat),
            decreases self.loading_stack.len() - i,
        {
            assert(text_views(self.loading_stack@)[i as int] == self.loading_stack@[i as int]@);
            r = r.concat(INDENT).concat(decimal(i as u128 + 1).as_str()).concat(NUMBER_END).concat(
                self.loading_stack[i].as_str(),
            ).concat(NEWLINE);
            i = i + 1;
        }
        r.concat(INDENT).concat(decimal(self.loading_stack.len() as u128 + 1).as_str()).concat(NUMBER_END).concat(
            new_path,
        ).concat(CYCLE_MARK)
    }

    /// Notes that the module at `path` is being loaded, unless it is
    /// already: that is a cycle.
    pub fn begin_loading(&mut self, path: &str) -> (r: Result<(), String>)
        ensures
            final(self).stdlib_path == old(self).stdlib_path,
            final(self).current_dir == old(self).current_dir,
            final(self).resolved_cache == old(self).resolved_cache,
            match r {
                Ok(_) => !listed(text_views(old(self).loading_stack@), path@) && text_views(
                    final(self).loading_stack@,
                ) == text_views(old(self).loading_stack@).push(path@),
                Err(message) => listed(text_views(old(self).loading_stack@), path@) && final(self).loading_stack
                    == old(self).loading_stack && message@ == CYCLE@ + cycle_text(
                    text_views(old(self).loading_stack@),
                    path@,
                ),
            },
    {
        match position(&self.loading_stack, path) {
            Some(_) => {
                let cycle = self.format_cycle(path);
                Err(CYCLE.to_string().concat(cycle.as_str()))
            },
            None => {
                self.loading_stack.push(path.to_string());
                assert(text_views(self.loading_stack@) =~= text_views(old(self).loading_stack@).push(path@));
                Ok(())
            },
        }
    }

    /// Notes that the module at `path` is loaded: it leaves the modules
    /// that are being loaded and joins those that were.
    pub fn end_loading(&mut self, path: &str)
        ensures
            final(self).stdlib_path == old(self).stdlib_path,
            final(self).current_dir == old(self).current_dir,
            listed(text_views(final(self).resolved_cache@), path@),
            if listed(text_views(old(self).resolved_cache@), path@) {
                final(self).resolved_cache == old(self).resolved_cache
            } else {
                text_views(final(self).resolved_cache@) == text_views(old(self).resolved_cache@).push(path@)
            },
            if listed(text_views(old(self).loading_stack@), path@) {
                exists|i: int|
                    first_listed(text_views(old(self).loading_stack@), path@, i) && final(self).loading_stack@
                        == old(self).loading_stack@.remove(i)
            } else {
                final(self).loading_stack == old(self).loading_stack
            },
    {
        match position(&self.loading_stack, path) {
            Some(i) => {
                self.loading_stack.remove(i);
            },
            None => {},
        }
        match position(&self.resolved_cache, path) {
            Some(i) => {
                assert(text_views(self.resolved_cache@)[i as int] == path@);
            },
            None => {
                self.resolved_cache.push(path.to_string());
                assert(text_views(self.resolved_cache@) =~= text_views(old(self).resolved_cache@).push(path@));
                assert(text_views(self.resolved_cache@)[self.resolved_cache@.len() - 1] == path@);
            },
        }
    }

    /// Whether the module at `path` is being loaded.
    pub fn is_loading(&self, path: &str) -> (r: bool)
        ensures
            r == listed(text_views(self.loading_stack@), path@),
    {
        position(&self.loading_stack, path).is_some()
    }

    /// Whether the module at `path` was loaded.
    pub fn is_loaded(&self, path: &str) -> (r: bool)
        ensures
            r == listed(text_views(self.resolved_cache@), path@),
    {
        position(&self.resolved_cache, path).is_some()
    }
}

} // verus!
