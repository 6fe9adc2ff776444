//! Which language server looks after which file, and the diagnostics that are attached to
//! the results of the tools that edit files.

use crate::json::{string_member, Json};
use crate::lsp::Diagnostic;
use crate::order::{distinct, distinct_texts};
use crate::paths::{extension, path_extension};
use crate::session_tree::UserBlock;
use crate::text::{
    copy_texts, decimal, decimal_size, digits, lemma_texts_empty, lemma_texts_push, opt_text, owned,
    texts,
};
use crate::text_map::TextMap;
use vstd::prelude::*;

verus! {

broadcast use {lemma_texts_push, lemma_texts_empty};

/// How long diagnostics are waited for after an edit, in milliseconds.
pub const DIAG_WAIT_MS: u64 = 800;

/// How many diagnostics are shown at most.
pub const MAX_SHOWN: usize = 20;

/// The language servers that are set up.
#[derive(Debug)]
pub struct LspConfig {
    pub language: Vec<LanguageConfig>,
}

impl Default for LspConfig {
    fn default() -> (r: LspConfig)
        ensures
            r.language@ == Seq::<LanguageConfig>::empty(),
    {
        LspConfig { language: Vec::new() }
    }
}

/// One language server.
#[derive(Debug)]
pub struct LanguageConfig {
    pub id: String,
    /// The extensions of the files that it looks after, without the dot.
    pub extensions: Vec<String>,
    pub command: String,
    pub args: Vec<String>,
}

/// The content of a `LanguageConfig`.
pub struct LanguageView {
    pub id: Seq<char>,
    pub extensions: Seq<Seq<char>>,
    pub command: Seq<char>,
    pub args: Seq<Seq<char>>,
}

impl View for LanguageConfig {
    type V = LanguageView;

    open spec fn view(&self) -> LanguageView {
        LanguageView {
            id: self.id@,
            extensions: texts(self.extensions@),
            command: self.command@,
            args: texts(self.args@),
        }
    }
}

impl LanguageConfig {
    pub fn copy(&self) -> (r: LanguageConfig)
        ensures
            r@ == self@,
    {
        LanguageConfig {
            id: self.id.clone(),
            extensions: copy_texts(&self.extensions),
            command: self.command.clone(),
            args: copy_texts(&self.args),
        }
    }
}

pub open spec fn language_views(v: Seq<LanguageConfig>) -> Seq<LanguageView> {
    Seq::new(v.len(), |i: int| v[i]@)
}

/// The position of the first language of an identifier.
pub open spec fn language_pos(v: Seq<LanguageView>, id: Seq<char>, from: int) -> Option<int>
    decreases v.len() - from,
{
    if from < 0 || from >= v.len() {
        None
    } else if v[from].id == id {
        Some(from)
    } else {
        language_pos(v, id, from + 1)
    }
}

/// A list with a language in the place of the one of the same identifier, or at the end.
pub open spec fn overlaid(v: Seq<LanguageView>, lang: LanguageView) -> Seq<LanguageView> {
    match language_pos(v, lang.id, 0) {
        Some(i) => v.update(i, lang),
        None => v.push(lang),
    }
}

/// A list with the first `n` languages of another laid over it.
pub open spec fn overlaid_all(v: Seq<LanguageView>, more: Seq<LanguageView>, n: int) -> Seq<
    LanguageView,
>
    decreases n,
{
    if n <= 0 || n > more.len() {
        v
    } else {
        overlaid(overlaid_all(v, more, n - 1), more[n - 1])
    }
}

fn find_language(v: &Vec<LanguageConfig>, id: &str) -> (r: Option<usize>)
    ensures
        match r {
            Some(i) => language_pos(language_views(v@), id@, 0) == Some(i as int) && i < v@.len(),
            None => language_pos(language_views(v@), id@, 0) is None,
        },
{
    let ghost views = language_views(v@);
    let mut i: usize = 0;
    while i < v.len()
        invariant
            i <= v@.len(),
            views == language_views(v@),
            language_pos(views, id@, 0) == language_pos(views, id@, i as int),
        decreases v@.len() - i,
    {
        if v[i].id.as_str().eq(id) {
            return Some(i);
        }
        i += 1;
    }
    None
}

impl LspConfig {
    /// Lays the languages of another set-up over these.
    pub fn overlay(&mut self, more: &LspConfig)
        ensures
            language_views(final(self).language@) == overlaid_all(
                language_views(old(self).language@),
                language_views(more.language@),
                more.language@.len() as int,
            ),
    {
        let ghost base = language_views(self.language@);
        let ghost over = language_views(more.language@);
        let mut i: usize = 0;
        while i < more.language.len()
            invariant
                i <= more.language@.len(),
                over == language_views(more.language@),
                language_views(self.language@) == overlaid_all(base, over, i as int),
            decreases more.language@.len() - i,
        {
            let ghost before = language_views(self.language@);
            let lang = more.language[i].copy();
            match find_language(&self.language, lang.id.as_str()) {
                Some(at) => {
                    self.language.set(at, lang);
                    assert(language_views(self.language@) =~= before.update(at as int, lang@));
                },
                None => {
                    self.language.push(lang);
                    assert(language_views(self.language@) =~= before.push(lang@));
                },
            }
            i += 1;
        }
    }

    /// The set-up of the user with that of the project laid over it. A file that is missing or
    /// cannot be read counts for nothing.
    pub fn load(user: &Option<LspConfig>, project: &Option<LspConfig>) -> (r: LspConfig)
        ensures
            language_views(r.language@) == combined(*user, *project),
    {
        let mut r = LspConfig { language: Vec::new() };
        assert(language_views(r.language@) =~= Seq::empty());
        if let Some(user) = user {
            r.overlay(user);
        }
        if let Some(project) = project {
            r.overlay(project);
        }
        r
    }
}

pub open spec fn with_layer(v: Seq<LanguageView>, layer: Option<LspConfig>) -> Seq<LanguageView> {
    match layer {
        Some(c) => overlaid_all(v, language_views(c.language@), c.language@.len() as int),
        None => v,
    }
}

/// The languages of the user with those of the project laid over them.
pub open spec fn combined(user: Option<LspConfig>, project: Option<LspConfig>) -> Seq<
    LanguageView,
> {
    with_layer(with_layer(Seq::empty(), user), project)
}

// By extension.

/// A map with a language for the first `n` of its extensions.
pub open spec fn with_extensions(
    m: Map<Seq<char>, LanguageView>,
    lang: LanguageView,
    n: int,
) -> Map<Seq<char>, LanguageView>
    decreases n,
{
    if n <= 0 || n > lang.extensions.len() {
        m
    } else {
        with_extensions(m, lang, n - 1).insert(lang.extensions[n - 1], lang)
    }
}

/// The language of each extension, of the first `n` languages. Where two languages claim an
/// extension, the later one gets it.
pub open spec fn by_extension(v: Seq<LanguageView>, n: int) -> Map<Seq<char>, LanguageView>
    decreases n,
{
    if n <= 0 || n > v.len() {
        Map::empty()
    } else {
        with_extensions(by_extension(v, n - 1), v[n - 1], v[n - 1].extensions.len() as int)
    }
}

/// The language of each extension and the files that are open.
#[derive(Debug)]
pub struct LspSupervisor {
    pub cwd_uri: String,
    pub by_ext: TextMap<LanguageConfig>,
    pub open_files: TextMap<()>,
}

/// The content of a map of languages.
pub open spec fn ext_view(m: Map<Seq<char>, LanguageConfig>) -> Map<Seq<char>, LanguageView> {
    m.map_values(|c: LanguageConfig| c@)
}

/// What is to be done before a file has diagnostics.
#[derive(Debug)]
pub enum OpenPlan {
    /// No server looks after the file.
    Unhandled,
    /// The file is open at its server.
    Ready { language: LanguageConfig, uri: String },
    /// The file is to be opened at its server.
    Open { language: LanguageConfig, uri: String },
}

pub open spec fn uri_of(path: Seq<char>) -> Seq<char> {
    "file://"@ + path
}

pub fn file_uri(path: &str) -> (r: String)
    ensures
        r@ == uri_of(path@),
{
    let mut r = owned("file://");
    r.push_str(path);
    r
}

impl LspSupervisor {
    pub fn from_config(cwd: &str, cfg: &LspConfig) -> (r: LspSupervisor)
        ensures
            r.cwd_uri@ == uri_of(cwd@),
            ext_view(r.by_ext@) == by_extension(
                language_views(cfg.language@),
                cfg.language@.len() as int,
            ),
            r.open_files@ == Map::<Seq<char>, ()>::empty(),
    {
        let ghost views = language_views(cfg.language@);
        let mut by_ext: TextMap<LanguageConfig> = TextMap::new();
        assert(ext_view(by_ext@) =~= by_extension(views, 0));
        let mut i: usize = 0;
        while i < cfg.language.len()
            invariant
                i <= cfg.language@.len(),
                views == language_views(cfg.language@),
                ext_view(by_ext@) == by_extension(views, i as int),
            decreases cfg.language@.len() - i,
        {
            let lang = &cfg.language[i];
            let ghost before = by_extension(views, i as int);
            let mut k: usize = 0;
            while k < lang.extensions.len()
                invariant
                    k <= lang.extensions@.len(),
                    ext_view(by_ext@) == with_extensions(before, lang@, k as int),
                decreases lang.extensions@.len() - k,
            {
                let ghost old_map = by_ext@;
                let copied = lang.copy();
                by_ext.insert(lang.extensions[k].clone(), copied);
                assert(lang@.extensions[k as int] == lang.extensions@[k as int]@);
                assert(ext_view(by_ext@) =~= ext_view(old_map).insert(
                    lang.extensions@[k as int]@,
                    lang@,
                ));
                k += 1;
            }
            i += 1;
        }
        LspSupervisor { cwd_uri: file_uri(cwd), by_ext, open_files: TextMap::new() }
    }

    /// Whether no extension is looked after.
    pub fn is_empty(&self) -> (r: bool)
        ensures
            r == (self.by_ext@ =~= Map::empty()),
    {
        let n = self.by_ext.len();
        proof {
            if n == 0 {
                assert forall|k: Seq<char>| !self.by_ext@.dom().contains(k) by {
                    assert(!self.by_ext.key_order().contains(k));
                }
                assert(self.by_ext@ =~= Map::empty());
            } else {
                assert(self.by_ext.key_order().contains(self.by_ext.key_order()[0]));
                assert(self.by_ext@.dom().contains(self.by_ext.key_order()[0]));
            }
        }
        n == 0
    }

    /// The identifiers of the languages of the extensions, in the order of the extensions.
    pub open spec fn language_ids(self, n: int) -> Seq<Seq<char>>
        decreases n,
    {
        if n <= 0 || n > self.by_ext.key_order().len() {
            Seq::empty()
        } else {
            self.language_ids(n - 1).push(self.by_ext@[self.by_ext.key_order()[n - 1]].id@)
        }
    }

    /// How many languages look after some extension.
    pub fn language_count(&self) -> (r: usize)
        ensures
            r == distinct(self.language_ids(self.by_ext.key_order().len() as int)).len(),
    {
        let mut ids: Vec<String> = Vec::new();
        let end = self.by_ext.len();
        let mut i: usize = 0;
        while i < end
            invariant
                i <= end,
                end == self.by_ext.key_order().len(),
                texts(ids@) == self.language_ids(i as int),
            decreases end - i,
        {
            let (_, lang) = self.by_ext.entry(i);
            ids.push(lang.id.clone());
            i += 1;
        }
        let each = distinct_texts(&ids);
        assert(texts(each@).len() == each@.len());
        each.len()
    }

    /// What is to be done before a file has diagnostics.
    pub fn open_plan(&self, path: &str) -> (r: OpenPlan)
        ensures
            match extension(path@) {
                Some(ext) => if self.by_ext@.dom().contains(ext) {
                    let lang = self.by_ext@[ext]@;
                    if self.open_files@.dom().contains(uri_of(path@)) {
                        r matches OpenPlan::Ready { language, uri } && language@ == lang && uri@
                            == uri_of(path@)
                    } else {
                        r matches OpenPlan::Open { language, uri } && language@ == lang && uri@
                            == uri_of(path@)
                    }
                } else {
                    r is Unhandled
                },
                None => r is Unhandled,
            },
    {
        let ext = match path_extension(path) {
            Some(ext) => ext,
            None => {
                return OpenPlan::Unhandled;
            },
        };
        let language = match self.by_ext.get(ext.as_str()) {
            Some(lang) => lang.copy(),
            None => {
                return OpenPlan::Unhandled;
            },
        };
        let uri = file_uri(path);
        if self.open_files.contains_key(uri.as_str()) {
            OpenPlan::Ready { language, uri }
        } else {
            OpenPlan::Open { language, uri }
        }
    }

    /// Remembers that a file was opened.
    pub fn opened(&mut self, uri: String)
        ensures
            final(self).open_files@ == old(self).open_files@.insert(uri@, ()),
            final(self).by_ext@ == old(self).by_ext@,
            final(self).cwd_uri == old(self).cwd_uri,
    {
        self.open_files.insert(uri, ());
    }

    /// The file whose diagnostics go with the result of a tool call: the one that `write` or
    /// `edit` was called on, where some extension is looked after.
    pub fn edited_path(&self, tool_name: &str, args: &Json) -> (r: Option<String>)
        ensures
            opt_text(r) == (if !(self.by_ext@ =~= Map::empty()) && (tool_name@ == "write"@
                || tool_name@ == "edit"@) {
                string_member(args@, "path"@)
            } else {
                None
            }),
    {
        if self.is_empty() || !(tool_name.eq("write") || tool_name.eq("edit")) {
            return None;
        }
        args.text_member("path")
    }
}

// Rendering.

pub open spec fn severity_text(severity: Option<u8>) -> Seq<char> {
    match severity {
        Some(n) => if n == 1 {
            "error"@
        } else if n == 2 {
            "warning"@
        } else if n == 3 {
            "info"@
        } else if n == 4 {
            "hint"@
        } else {
            "diag"@
        },
        None => "diag"@,
    }
}

fn severity_label(severity: Option<u8>) -> (r: &'static str)
    ensures
        r@ == severity_text(severity),
{
    match severity {
        Some(n) => if n == 1 {
            "error"
        } else if n == 2 {
            "warning"
        } else if n == 3 {
            "info"
        } else if n == 4 {
            "hint"
        } else {
            "diag"
        },
        None => "diag",
    }
}

/// The line of one diagnostic, with its place counted from one.
pub open spec fn diagnostic_line(d: Diagnostic) -> Seq<char> {
    "  ["@ + severity_text(d.severity) + "] "@ + digits((d.range.start.line + 1) as nat) + ":"@
        + digits((d.range.start.character + 1) as nat) + ": "@ + d.message@ + "\n"@
}

/// The lines of the first `n` diagnostics.
pub open spec fn diagnostic_lines(path: Seq<char>, diags: Seq<Diagnostic>, n: int) -> Seq<char>
    decreases n,
{
    if n <= 0 || n > diags.len() {
        "\n\nLSP diagnostics for "@ + path + ":\n"@
    } else {
        diagnostic_lines(path, diags, n - 1) + diagnostic_line(diags[n - 1])
    }
}

/// The text on the diagnostics of a file, at most `MAX_SHOWN` of them.
pub open spec fn diagnostics_text(path: Seq<char>, diags: Seq<Diagnostic>) -> Seq<char> {
    if diags.len() > MAX_SHOWN {
        diagnostic_lines(path, diags, MAX_SHOWN as int) + "  ("@ + digits(
            (diags.len() - MAX_SHOWN) as nat,
        ) + " more)\n"@
    } else {
        diagnostic_lines(path, diags, diags.len() as int)
    }
}

/// Whether the place of a diagnostic can be counted from one.
pub open spec fn can_be_shown(d: Diagnostic) -> bool {
    d.range.start.line < u32::MAX && d.range.start.character < u32::MAX
}

/// The text on the diagnostics of a file.
pub fn render_diagnostics(path: &str, diags: &Vec<Diagnostic>) -> (r: String)
    requires
        forall|i: int| 0 <= i < diags@.len() && i < MAX_SHOWN ==> can_be_shown(#[trigger] diags@[i]),
    ensures
        r@ == diagnostics_text(path@, diags@),
{
    let mut out = owned("\n\nLSP diagnostics for ");
    out.push_str(path);
    out.push_str(":\n");
    let total: usize = diags.len();
    let shown: usize = if total > MAX_SHOWN {
        MAX_SHOWN
    } else {
        total
    };
    let mut i: usize = 0;
    while i < shown
        invariant
            i <= shown <= diags@.len(),
            shown <= MAX_SHOWN,
            forall|i: int|
                0 <= i < diags@.len() && i < MAX_SHOWN ==> can_be_shown(#[trigger] diags@[i]),
            out@ == diagnostic_lines(path@, diags@, i as int),
        decreases shown - i,
    {
        let d = &diags[i];
        let mut line = owned("  [");
        line.push_str(severity_label(d.severity));
        line.push_str("] ");
        line.push_str(decimal((d.range.start.line + 1) as u64).as_str());
        line.push_str(":");
        line.push_str(decimal((d.range.start.character + 1) as u64).as_str());
        line.push_str(": ");
        line.push_str(d.message.as_str());
        line.push_str("\n");
        out.push_str(line.as_str());
        i += 1;
    }
    if total > MAX_SHOWN {
        out.push_str("  (");
        out.push_str(decimal_size(total - MAX_SHOWN).as_str());
        out.push_str(" more)\n");
    }
    out
}

/// What is put behind the content of a tool's result: the diagnostics of the file, where it
/// has any.
pub fn attached(path: &str, diags: &Vec<Diagnostic>) -> (r: Option<UserBlock>)
    requires
        forall|i: int| 0 <= i < diags@.len() && i < MAX_SHOWN ==> can_be_shown(#[trigger] diags@[i]),
    ensures
        if diags@.len() == 0 {
            r is None
        } else {
            r matches Some(UserBlock::Text(t)) && t@ == diagnostics_text(path@, diags@)
        },
{
    if diags.len() == 0 {
        return None;
    }
    Some(UserBlock::Text(render_diagnostics(path, diags)))
}

// Laws.

proof fn lemma_language_pos(v: Seq<LanguageView>, id: Seq<char>, from: int)
    requires
        0 <= from <= v.len(),
    ensures
        match language_pos(v, id, from) {
            Some(i) => from <= i < v.len() && v[i].id == id,
            None => forall|i: int| from <= i < v.len() ==> (#[trigger] v[i]).id != id,
        },
    decreases v.len() - from,
{
    if from < v.len() {
        lemma_language_pos(v, id, from + 1);
    }
}

/// Whether no two languages share an identifier.
pub open spec fn language_ids_differ(v: Seq<LanguageView>) -> bool {
    forall|i: int, j: int| 0 <= i < j < v.len() ==> (#[trigger] v[i]).id != (#[trigger] v[j]).id
}

/// A language of the project takes the place of the user's language of the same identifier:
/// after it was laid over the others, it is among them, no other language has left or changed,
/// and where no two languages shared an identifier, none do now.
pub proof fn law_overlay_replaces_by_id(v: Seq<LanguageView>, lang: LanguageView)
    ensures
        overlaid(v, lang).contains(lang),
        language_ids_differ(v) ==> language_ids_differ(overlaid(v, lang)),
        forall|l: LanguageView|
            l.id != lang.id ==> (overlaid(v, lang).contains(l) <==> v.contains(l)),
{
    lemma_language_pos(v, lang.id, 0);
    let r = overlaid(v, lang);
    match language_pos(v, lang.id, 0) {
        Some(i) => {
            assert(r[i] == lang);
            assert forall|l: LanguageView| l.id != lang.id implies (r.contains(l) <==> v.contains(
                l,
            )) by {
                if v.contains(l) {
                    let j = choose|j: int| 0 <= j < v.len() && v[j] == l;
                    assert(r[j] == l);
                }
                if r.contains(l) {
                    let j = choose|j: int| 0 <= j < r.len() && r[j] == l;
                    assert(v[j] == l);
                }
            }
        },
        None => {
            assert(r[v.len() as int] == lang);
            assert forall|l: LanguageView| l.id != lang.id implies (r.contains(l) <==> v.contains(
                l,
            )) by {
                if v.contains(l) {
                    let j = choose|j: int| 0 <= j < v.len() && v[j] == l;
                    assert(r[j] == l);
                }
                if r.contains(l) {
                    let j = choose|j: int| 0 <= j < r.len() && r[j] == l;
                    assert(v[j] == l);
                }
            }
        },
    }
}

proof fn lemma_with_extensions(m: Map<Seq<char>, LanguageView>, lang: LanguageView, n: int)
    requires
        0 <= n <= lang.extensions.len(),
    ensures
        forall|k: int|
            0 <= k < n ==> with_extensions(m, lang, n).dom().contains(#[trigger] lang.extensions[k])
                && with_extensions(m, lang, n)[lang.extensions[k]] == lang,
    decreases n,
{
    if n > 0 {
        lemma_with_extensions(m, lang, n - 1);
    }
}

/// Every extension of the last language is looked after by that language.
pub proof fn law_later_language_gets_the_extension(v: Seq<LanguageView>, k: int)
    requires
        v.len() > 0,
        0 <= k < v.last().extensions.len(),
    ensures
        by_extension(v, v.len() as int).dom().contains(v.last().extensions[k]),
        by_extension(v, v.len() as int)[v.last().extensions[k]] == v.last(),
{
    lemma_with_extensions(
        by_extension(v, v.len() - 1),
        v.last(),
        v.last().extensions.len() as int,
    );
}

/// Whether a language claims an extension.
pub open spec fn claims(lang: LanguageView, ext: Seq<char>) -> bool {
    exists|k: int| 0 <= k < lang.extensions.len() && #[trigger] lang.extensions[k] == ext
}

proof fn lemma_claimed(m: Map<Seq<char>, LanguageView>, lang: LanguageView, n: int, ext: Seq<char>)
    requires
        0 <= n <= lang.extensions.len(),
    ensures
        ({
            let out = with_extensions(m, lang, n);
            let claimed = exists|k: int| 0 <= k < n && #[trigger] lang.extensions[k] == ext;
            &&& claimed ==> out.dom().contains(ext) && out[ext] == lang
            &&& !claimed ==> out.dom().contains(ext) == m.dom().contains(ext) && (m.dom().contains(
                ext,
            ) ==> out[ext] == m[ext])
        }),
    decreases n,
{
    if n > 0 {
        lemma_claimed(m, lang, n - 1, ext);
        if exists|k: int| 0 <= k < n && #[trigger] lang.extensions[k] == ext {
            let k = choose|k: int| 0 <= k < n && #[trigger] lang.extensions[k] == ext;
            if k < n - 1 {
                assert(lang.extensions[k] == ext);
            }
        }
        assert(lang.extensions[n - 1] == lang.extensions[n - 1]);
    }
}

proof fn lemma_by_extension(v: Seq<LanguageView>, n: int, i: int, ext: Seq<char>)
    requires
        0 <= i < n <= v.len(),
        claims(v[i], ext),
        forall|j: int| i < j < n ==> !claims(#[trigger] v[j], ext),
    ensures
        by_extension(v, n).dom().contains(ext),
        by_extension(v, n)[ext] == v[i],
    decreases n,
{
    let before = by_extension(v, n - 1);
    lemma_claimed(before, v[n - 1], v[n - 1].extensions.len() as int, ext);
    if i < n - 1 {
        lemma_by_extension(v, n - 1, i, ext);
        assert(!claims(v[n - 1], ext));
    }
}

proof fn lemma_unclaimed(v: Seq<LanguageView>, n: int, ext: Seq<char>)
    requires
        0 <= n <= v.len(),
        forall|j: int| 0 <= j < n ==> !claims(#[trigger] v[j], ext),
    ensures
        !by_extension(v, n).dom().contains(ext),
    decreases n,
{
    if n > 0 {
        let before = by_extension(v, n - 1);
        lemma_claimed(before, v[n - 1], v[n - 1].extensions.len() as int, ext);
        lemma_unclaimed(v, n - 1, ext);
        assert(!claims(v[n - 1], ext));
    }
}

/// A file is served by the last language that claims its extension, and by none where no
/// language does.
pub proof fn law_last_claim_gets_the_extension(v: Seq<LanguageView>, i: int, ext: Seq<char>)
    ensures
        0 <= i < v.len() && claims(v[i], ext) && (forall|j: int|
            i < j < v.len() ==> !claims(#[trigger] v[j], ext)) ==> by_extension(
            v,
            v.len() as int,
        ).dom().contains(ext) && by_extension(v, v.len() as int)[ext] == v[i],
        (forall|j: int| 0 <= j < v.len() ==> !claims(#[trigger] v[j], ext)) ==> !by_extension(
            v,
            v.len() as int,
        ).dom().contains(ext),
{
    if 0 <= i < v.len() && claims(v[i], ext) && (forall|j: int|
        i < j < v.len() ==> !claims(#[trigger] v[j], ext)) {
        lemma_by_extension(v, v.len() as int, i, ext);
    }
    if forall|j: int| 0 <= j < v.len() ==> !claims(#[trigger] v[j], ext) {
        lemma_unclaimed(v, v.len() as int, ext);
    }
}

proof fn lemma_lines_prefix(path: Seq<char>, diags: Seq<Diagnostic>, d: Diagnostic, n: int)
    requires
        n <= diags.len(),
    ensures
        diagnostic_lines(path, diags.push(d), n) == diagnostic_lines(path, diags, n),
    decreases n,
{
    if n > 0 {
        lemma_lines_prefix(path, diags, d, n - 1);
    }
}

/// A diagnostic adds its line behind those before it, as long as there are not too many: with
/// its severity, its place counted from one, and its message. Those behind are only counted.
pub proof fn law_diagnostics_are_shown_in_order(
    path: Seq<char>,
    diags: Seq<Diagnostic>,
    d: Diagnostic,
)
    ensures
        diags.len() < MAX_SHOWN ==> diagnostics_text(path, diags.push(d)) == diagnostics_text(
            path,
            diags,
        ) + ("  ["@ + severity_text(d.severity) + "] "@ + digits((d.range.start.line + 1) as nat)
            + ":"@ + digits((d.range.start.character + 1) as nat) + ": "@ + d.message@ + "\n"@),
        diags.len() == MAX_SHOWN ==> diagnostics_text(path, diags.push(d)) == diagnostics_text(
            path,
            diags,
        ) + "  ("@ + digits(1) + " more)\n"@,
        diagnostics_text(path, Seq::empty()) == "\n\nLSP diagnostics for "@ + path + ":\n"@,
{
    lemma_lines_prefix(path, diags, d, diags.len() as int);
}

/// A diagnostic is told as an error, a warning, an information or a hint by its number, and
/// otherwise as a diagnostic.
pub proof fn law_severities_are_told_by_number(n: u8)
    ensures
        severity_text(Some(n)) == if n == 1 {
            "error"@
        } else if n == 2 {
            "warning"@
        } else if n == 3 {
            "info"@
        } else if n == 4 {
            "hint"@
        } else {
            "diag"@
        },
        severity_text(None) == "diag"@,
{
}

proof fn lemma_overlaid_all_holds(
    v: Seq<LanguageView>,
    more: Seq<LanguageView>,
    n: int,
    x: LanguageView,
)
    requires
        0 <= n <= more.len(),
        language_ids_differ(more),
    ensures
        forall|i: int| 0 <= i < n ==> overlaid_all(v, more, n).contains(#[trigger] more[i]),
        v.contains(x) && (forall|i: int| 0 <= i < n ==> (#[trigger] more[i]).id != x.id)
            ==> overlaid_all(v, more, n).contains(x),
    decreases n,
{
    if n > 0 {
        lemma_overlaid_all_holds(v, more, n - 1, x);
        let before = overlaid_all(v, more, n - 1);
        law_overlay_replaces_by_id(before, more[n - 1]);
    }
}

/// A language of the project counts as the project has it, and one of the user counts where the
/// project has none of its identifier.
pub proof fn law_projects_count_before_users(user: LspConfig, project: LspConfig, i: int)
    requires
        language_ids_differ(language_views(user.language@)),
        language_ids_differ(language_views(project.language@)),
    ensures
        0 <= i < project.language@.len() ==> combined(Some(user), Some(project)).contains(
            project.language@[i]@,
        ),
        0 <= i < user.language@.len() && (forall|j: int|
            0 <= j < project.language@.len() ==> (#[trigger] project.language@[j])@.id
                != user.language@[i]@.id) ==> combined(Some(user), Some(project)).contains(
            user.language@[i]@,
        ),
{
    let u = language_views(user.language@);
    let p = language_views(project.language@);
    let first = overlaid_all(Seq::empty(), u, u.len() as int);
    lemma_overlaid_all_holds(Seq::empty(), u, u.len() as int, u[i]);
    lemma_overlaid_all_holds(first, p, p.len() as int, u[i]);
    if 0 <= i < p.len() {
        assert(p[i] == project.language@[i]@);
    }
    if 0 <= i < u.len() {
        assert(u[i] == user.language@[i]@);
        if forall|j: int|
            0 <= j < project.language@.len() ==> (#[trigger] project.language@[j])@.id
                != user.language@[i]@.id {
            assert forall|j: int| 0 <= j < p.len() implies (#[trigger] p[j]).id != u[i].id by {
                assert(p[j] == project.language@[j]@);
            }
        }
    }
}

} // verus!
