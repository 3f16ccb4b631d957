//! What the tools decide between reading their inputs and delivering their results.

use vstd::prelude::*;
use vstd::string::*;

use crate::args::{LintArgs, LintArgsV, MermaidArgs, MermaidArgsV};
use crate::bindings::{coverage, coverage_warnings};
use crate::discover::{Bundle, BundleV, Discovered, DiscoveredV};
use crate::find::{macro_name, Decl, DeclV};
use crate::inputs::{Scan, ScanV, Sources};
use crate::json::{compact_json, pretty_json, strings, JsonV};
use crate::lint::{coupling_lints, dataflow_lints, gate_lints, gate_texts};
use crate::list::{put, Dup};
use crate::model::{json_model, model_json_with_warnings};
use crate::options::{Options, OptionsV};
use crate::out::{
    editor_bytes, html_page, link_to, live_url, page_text, script_escaped, sources_json, zlib_best,
};
use crate::pool::holds;
use crate::render::{legend_alone, legend_diagram};
use crate::resolve::{exclude, excluded, resolve, resolved, undeclared};
use crate::scan::append;
use crate::text::{
    bounded_number, cat2, cat3, cat4, cat6, decimal, decimal_usize, join, joined, parse_number,
    same, text, trim, trimmed,
};
use crate::diagram;

verus! {

/// A declaration in one line.
pub open spec fn description(d: DeclV) -> Seq<char> {
    macro_name(d.kind) + " "@ + (match d.spec.name {
        Some(n) => n,
        None => "<unnamed>"@,
    }) + "  ("@ + d.origin + ":"@ + decimal(d.line as nat) + ", "@ + decimal(d.spec.items.len()) + " items)"@
}

/// Describes a declaration in one line.
pub fn describe(d: &Decl) -> (r: String)
    ensures
        r@ == description(d.deep_view()),
{
    let mut out = text(d.kind.macro_name());
    out.append(" ");
    let name = match d.name() {
        Some(n) => n,
        None => text("<unnamed>"),
    };
    out.append(name.as_str());
    out.append("  (");
    out.append(d.origin.as_str());
    out.append(":");
    let line = decimal_usize(d.line);
    out.append(line.as_str());
    out.append(", ");
    let size = decimal_usize(d.spec.items.len());
    out.append(size.as_str());
    out.append(" items)");
    out
}

/// The declarations from number `i` on, one to a line behind `indent`, behind `acc`.
pub open spec fn listed_from(decls: Seq<DeclV>, indent: Seq<char>, i: int, acc: Seq<char>) -> Seq<char>
    decreases decls.len() - i,
{
    if i < 0 || i >= decls.len() {
        acc
    } else {
        listed_from(
            decls,
            indent,
            i + 1,
            acc + indent + "["@ + decimal((i + 1) as nat) + "] "@ + description(decls[i]) + "\n"@,
        )
    }
}

/// Lists declarations, numbered from one, one to a line behind `indent`.
pub fn listing(decls: &Vec<Decl>, indent: &str) -> (r: String)
    ensures
        r@ == listed_from(decls.deep_view(), indent@, 0, ""@),
{
    let ghost ds = decls.deep_view();
    let mut out = text("");
    let size: usize = decls.len();
    let mut i: usize = 0;
    while i < size
        invariant
            i <= size == decls@.len(),
            ds == decls.deep_view(),
            listed_from(ds, indent@, 0, ""@) == listed_from(ds, indent@, i as int, out@),
        decreases size - i,
    {
        let number = decimal_usize(i + 1);
        let line = describe(&decls[i]);
        out.append(indent);
        out.append("[");
        out.append(number.as_str());
        out.append("] ");
        out.append(line.as_str());
        out.append("\n");
        i = i + 1;
    }
    out
}

/// The title of an HTML page.
pub open spec fn page_title(o: OptionsV) -> Option<Seq<char>> {
    if o.show_title {
        match o.title {
            Some(t) => Some(t),
            None => Some("supervisor graphs"@),
        }
    } else {
        None
    }
}

/// The title of an HTML page, if it is to have one.
pub fn html_page_title<'a>(o: &'a Options) -> (r: Option<&'a str>)
    ensures
        match r {
            Some(t) => page_title(o.deep_view()) == Some(t@),
            None => page_title(o.deep_view()) is None,
        },
{
    if o.show_title {
        match &o.title {
            Some(t) => Some(t.as_str()),
            None => Some("supervisor graphs"),
        }
    } else {
        None
    }
}

/// The diagrams from number `i` on as fenced markdown, behind `acc`; each with a heading where
/// there are several.
pub open spec fn fenced_from(diagrams: Seq<(Seq<char>, Seq<char>)>, i: int, acc: Seq<char>) -> Seq<char>
    decreases diagrams.len() - i,
{
    if i < 0 || i >= diagrams.len() {
        acc
    } else {
        fenced_from(
            diagrams,
            i + 1,
            acc + (if i > 0 {
                "\n"@
            } else {
                ""@
            }) + (if diagrams.len() > 1 {
                "### "@ + diagrams[i].0 + "\n\n"@
            } else {
                ""@
            }) + "```mermaid\n"@ + diagrams[i].1 + "```\n"@,
        )
    }
}

/// Diagrams as fenced markdown.
pub fn fenced(diagrams: &Vec<(String, String)>) -> (r: String)
    ensures
        r@ == fenced_from(diagrams.deep_view(), 0, ""@),
{
    let ghost ds = diagrams.deep_view();
    let mut out = text("");
    let mut i: usize = 0;
    while i < diagrams.len()
        invariant
            i <= diagrams@.len(),
            ds == diagrams.deep_view(),
            fenced_from(ds, 0, ""@) == fenced_from(ds, i as int, out@),
        decreases diagrams@.len() - i,
    {
        out.append(
            if i > 0 {
                "\n"
            } else {
                ""
            },
        );
        let heading = if diagrams.len() > 1 {
            cat3("### ", diagrams[i].0.as_str(), "\n\n")
        } else {
            text("")
        };
        out.append(heading.as_str());
        out.append("```mermaid\n");
        out.append(diagrams[i].1.as_str());
        out.append("```\n");
        i = i + 1;
    }
    out
}

/// The sources of diagrams.
pub open spec fn codes(diagrams: Seq<(Seq<char>, Seq<char>)>) -> Seq<Seq<char>> {
    Seq::new(diagrams.len(), |i: int| diagrams[i].1)
}

fn read_codes(diagrams: &Vec<(String, String)>) -> (r: Vec<String>)
    ensures
        r.deep_view() == codes(diagrams.deep_view()),
{
    let ghost all = codes(diagrams.deep_view());
    let mut out: Vec<String> = Vec::new();
    let mut i: usize = 0;
    while i < diagrams.len()
        invariant
            i <= diagrams@.len(),
            all == codes(diagrams.deep_view()),
            out.deep_view() == all.take(i as int),
        decreases diagrams@.len() - i,
    {
        put(&mut out, diagrams[i].1.dup());
        i = i + 1;
        assert(out.deep_view() == all.take(i as int));
    }
    assert(all.take(all.len() as int) == all);
    out
}

/// The links to the diagrams from number `i` on, behind `acc`; each below its heading where there
/// are several.
pub open spec fn links_from(
    diagrams: Seq<(Seq<char>, Seq<char>)>,
    links: Seq<Seq<char>>,
    i: int,
    acc: Seq<char>,
) -> Seq<char>
    decreases diagrams.len() - i,
{
    if i < 0 || i >= diagrams.len() {
        acc
    } else {
        links_from(
            diagrams,
            links,
            i + 1,
            acc + (if diagrams.len() > 1 {
                diagrams[i].0 + "\n  "@
            } else {
                ""@
            }) + links[i] + "\n"@,
        )
    }
}

/// Lists links to diagrams.
pub fn list_links(diagrams: &Vec<(String, String)>, links: &Vec<String>) -> (r: String)
    requires
        diagrams@.len() == links@.len(),
    ensures
        r@ == links_from(diagrams.deep_view(), links.deep_view(), 0, ""@),
{
    let ghost ds = diagrams.deep_view();
    let ghost ls = links.deep_view();
    let mut out = text("");
    let mut i: usize = 0;
    while i < diagrams.len()
        invariant
            i <= diagrams@.len() == links@.len(),
            ds == diagrams.deep_view(),
            ls == links.deep_view(),
            links_from(ds, ls, 0, ""@) == links_from(ds, ls, i as int, out@),
        decreases diagrams@.len() - i,
    {
        let heading = if diagrams.len() > 1 {
            cat2(diagrams[i].0.as_str(), "\n  ")
        } else {
            text("")
        };
        out.append(heading.as_str());
        out.append(links[i].as_str());
        out.append("\n");
        i = i + 1;
    }
    out
}

/// The links to diagrams.
pub open spec fn live_links(diagrams: Seq<(Seq<char>, Seq<char>)>) -> Seq<Seq<char>> {
    Seq::new(diagrams.len(), |i: int| link_to(zlib_best(editor_bytes(diagrams[i].1))))
}

fn make_live_links(diagrams: &Vec<(String, String)>) -> (r: Vec<String>)
    ensures
        r.deep_view() == live_links(diagrams.deep_view()),
        r@.len() == diagrams@.len(),
{
    let ghost all = live_links(diagrams.deep_view());
    let mut out: Vec<String> = Vec::new();
    let mut i: usize = 0;
    while i < diagrams.len()
        invariant
            i <= diagrams@.len(),
            all == live_links(diagrams.deep_view()),
            out.deep_view() == all.take(i as int),
        decreases diagrams@.len() - i,
    {
        put(&mut out, live_url(diagrams[i].1.as_str()));
        i = i + 1;
        assert(out.deep_view() == all.take(i as int));
    }
    assert(all.take(all.len() as int) == all);
    assert(out.deep_view().len() == out@.len());
    out
}

/// The names of `list` from number `i` on that `missed` holds, behind `acc`.
pub open spec fn kept_from(
    list: Seq<Seq<char>>,
    missed: Seq<Seq<char>>,
    i: int,
    acc: Seq<Seq<char>>,
) -> Seq<Seq<char>>
    decreases list.len() - i,
{
    if i < 0 || i >= list.len() {
        acc
    } else {
        kept_from(
            list,
            missed,
            i + 1,
            if missed.contains(list[i]) {
                acc.push(list[i])
            } else {
                acc
            },
        )
    }
}

fn keep(list: &Vec<String>, missed: &Vec<String>) -> (r: Vec<String>)
    ensures
        r.deep_view() == kept_from(list.deep_view(), missed.deep_view(), 0, Seq::empty()),
{
    let ghost l = list.deep_view();
    let ghost m = missed.deep_view();
    let mut out: Vec<String> = Vec::new();
    assert(out.deep_view() == Seq::<Seq<char>>::empty());
    let mut i: usize = 0;
    while i < list.len()
        invariant
            i <= list@.len(),
            l == list.deep_view(),
            m == missed.deep_view(),
            kept_from(l, m, 0, Seq::empty()) == kept_from(l, m, i as int, out.deep_view()),
        decreases list@.len() - i,
    {
        if holds(missed, list[i].as_str()) {
            put(&mut out, list[i].dup());
        }
        i = i + 1;
    }
    out
}

/// The names that no declaration from number `i` on declares, of those given.
pub open spec fn unmatched_from(
    decls: Seq<DeclV>,
    names: Seq<Seq<char>>,
    i: int,
    left: Seq<Seq<char>>,
) -> Seq<Seq<char>>
    decreases decls.len() - i,
{
    if i < 0 || i >= decls.len() {
        left
    } else {
        unmatched_from(
            decls,
            names,
            i + 1,
            kept_from(left, undeclared(decls[i].spec.items, names, 0, Seq::empty()), 0, Seq::empty()),
        )
    }
}

/// Declarations without the named items.
pub open spec fn all_excluded(decls: Seq<DeclV>, names: Seq<Seq<char>>) -> Seq<DeclV> {
    Seq::new(decls.len(), |i: int| excluded(decls[i], names))
}

/// Declarations without the named items, or the complaint on the names that nothing has.
pub open spec fn exclusion(decls: Seq<DeclV>, names: Seq<Seq<char>>) -> Result<Seq<DeclV>, Seq<char>> {
    let left = unmatched_from(decls, names, 0, names);
    if names.len() > 0 && left.len() > 0 {
        Err("no node or pool named "@ + joined(left, ", "@) + " in this graph"@)
    } else if names.len() > 0 {
        Ok(all_excluded(decls, names))
    } else {
        Ok(decls)
    }
}

/// Leaves out the named items.
pub fn exclude_all(decls: Vec<Decl>, names: &Vec<String>) -> (r: Result<Vec<Decl>, String>)
    ensures
        match r {
            Ok(v) => exclusion(decls.deep_view(), names.deep_view()) == Ok::<Seq<DeclV>, Seq<char>>(
                v.deep_view(),
            ),
            Err(e) => exclusion(decls.deep_view(), names.deep_view()) == Err::<Seq<DeclV>, Seq<char>>(e@),
        },
{
    if names.len() == 0 {
        return Ok(decls);
    }
    let ghost ds = decls.deep_view();
    let ghost ns = names.deep_view();
    let ghost all = all_excluded(ds, ns);
    let mut out: Vec<Decl> = Vec::new();
    let mut left = names.dup();
    let mut i: usize = 0;
    while i < decls.len()
        invariant
            i <= decls@.len(),
            ds == decls.deep_view(),
            ns == names.deep_view(),
            all == all_excluded(ds, ns),
            out.deep_view() == all.take(i as int),
            unmatched_from(ds, ns, 0, ns) == unmatched_from(ds, ns, i as int, left.deep_view()),
        decreases decls@.len() - i,
    {
        let mut d = decls[i].dup();
        assert(d.deep_view() == ds[i as int]);
        let missed = exclude(&mut d, names);
        left = keep(&left, &missed);
        put(&mut out, d);
        i = i + 1;
        assert(out.deep_view() == all.take(i as int));
    }
    assert(all.take(all.len() as int) == all);
    assert(left.deep_view().len() == left@.len());
    if left.len() > 0 {
        let list = join(&left, ", ");
        return Err(cat3("no node or pool named ", list.as_str(), " in this graph"));
    }
    Ok(out)
}

pub const NO_DECLARATION: &'static str = "no graph declaration found in the given files";

/// The declarations of the given name from number `i` on, behind `acc`.
pub open spec fn named_from(decls: Seq<DeclV>, name: Seq<char>, i: int, acc: Seq<DeclV>) -> Seq<DeclV>
    decreases decls.len() - i,
{
    if i < 0 || i >= decls.len() {
        acc
    } else {
        named_from(
            decls,
            name,
            i + 1,
            if decls[i].spec.name == Some(name) {
                acc.push(decls[i])
            } else {
                acc
            },
        )
    }
}

fn find_named(decls: &Vec<Decl>, name: &str) -> (r: Vec<Decl>)
    ensures
        r.deep_view() == named_from(decls.deep_view(), name@, 0, Seq::empty()),
{
    let ghost ds = decls.deep_view();
    let mut out: Vec<Decl> = Vec::new();
    assert(out.deep_view() == Seq::<DeclV>::empty());
    let mut i: usize = 0;
    while i < decls.len()
        invariant
            i <= decls@.len(),
            ds == decls.deep_view(),
            named_from(ds, name@, 0, Seq::empty()) == named_from(ds, name@, i as int, out.deep_view()),
        decreases decls@.len() - i,
    {
        assert(ds[i as int] == decls@[i as int].deep_view());
        let hit = match &decls[i].spec.name {
            Some(n) => same(n.as_str(), name),
            None => false,
        };
        if hit {
            put(&mut out, decls[i].dup());
        }
        i = i + 1;
    }
    out
}

/// The declaration that is selected by its number, from one on, or those that are by their name; or
/// the complaint on the selection.
pub open spec fn selection(decls: Seq<DeclV>, want: Seq<char>) -> Result<Seq<DeclV>, Seq<char>> {
    match bounded_number(want, usize::MAX as nat) {
        Some(n) => if 1 <= n <= decls.len() {
            Ok(seq![decls[n - 1]])
        } else {
            Err(
                "`--select "@ + decimal(n) + "` is out of range; --list shows 1.."@ + decimal(decls.len()),
            )
        },
        None => if named_from(decls, want, 0, Seq::empty()).len() == 0 {
            Err("no declaration named `"@ + want + "`"@)
        } else {
            Ok(named_from(decls, want, 0, Seq::empty()))
        },
    }
}

/// Selects declarations by number or name.
pub fn select(decls: &Vec<Decl>, want: &str) -> (r: Result<Vec<Decl>, String>)
    ensures
        match r {
            Ok(v) => selection(decls.deep_view(), want@) == Ok::<Seq<DeclV>, Seq<char>>(v.deep_view()),
            Err(e) => selection(decls.deep_view(), want@) == Err::<Seq<DeclV>, Seq<char>>(e@),
        },
{
    let size: usize = decls.len();
    assert(decls.deep_view().len() == size);
    match parse_number(want, usize::MAX as u64) {
        Some(n) => {
            if 1 <= n && n <= size as u64 {
                let at: usize = n as usize - 1;
                assert(decls.deep_view()[at as int] == decls@[at as int].deep_view());
                return Ok(only(&decls[at]));
            }
            let number = decimal_usize(n as usize);
            let most = decimal_usize(size);
            Err(
                cat4(
                    "`--select ",
                    number.as_str(),
                    "` is out of range; --list shows 1..",
                    most.as_str(),
                ),
            )
        },
        None => {
            let found = find_named(decls, want);
            assert(found.deep_view().len() == found@.len());
            if found.len() == 0 {
                return Err(cat3("no declaration named `", want, "`"));
            }
            Ok(found)
        },
    }
}

fn only(d: &Decl) -> (r: Vec<Decl>)
    ensures
        r.deep_view() == seq![d.deep_view()],
{
    let mut out: Vec<Decl> = Vec::new();
    assert(out.deep_view() == Seq::<DeclV>::empty());
    put(&mut out, d.dup());
    assert(out.deep_view() == seq![d.deep_view()]);
    out
}

/// The declarations that the answer to the question which to render asks for: all of them for an
/// empty answer or the letter a, else one by its number; or the complaint on the answer.
pub open spec fn picked(decls: Seq<DeclV>, answer: Seq<char>) -> Result<Seq<DeclV>, Seq<char>> {
    let a = trimmed(answer);
    if a.len() == 0 || a == "a"@ || a == "A"@ {
        Ok(decls)
    } else {
        match bounded_number(a, usize::MAX as nat) {
            Some(n) => if 1 <= n <= decls.len() {
                Ok(seq![decls[n - 1]])
            } else {
                Err("`"@ + a + "` is not one of the listed numbers"@)
            },
            None => Err("`"@ + a + "` is not one of the listed numbers"@),
        }
    }
}

/// Follows the answer to the question which declaration to render.
pub fn pick(decls: Vec<Decl>, answer: &str) -> (r: Result<Vec<Decl>, String>)
    ensures
        match r {
            Ok(v) => picked(decls.deep_view(), answer@) == Ok::<Seq<DeclV>, Seq<char>>(v.deep_view()),
            Err(e) => picked(decls.deep_view(), answer@) == Err::<Seq<DeclV>, Seq<char>>(e@),
        },
{
    let a = trim(answer);
    if a.as_str().unicode_len() == 0 || same(a.as_str(), "a") || same(a.as_str(), "A") {
        return Ok(decls);
    }
    let size: usize = decls.len();
    assert(decls.deep_view().len() == size);
    if let Some(n) = parse_number(a.as_str(), usize::MAX as u64) {
        if 1 <= n && n <= size as u64 {
            let at: usize = n as usize - 1;
            assert(decls.deep_view()[at as int] == decls@[at as int].deep_view());
            return Ok(only(&decls[at]));
        }
    }
    Err(cat3("`", a.as_str(), "` is not one of the listed numbers"))
}

/// What comes of the declarations once fragments are spliced and items left out.
#[derive(Debug)]
pub enum Narrowed {
    /// A listing to print.
    Listing(String),
    /// The declarations to go on with.
    Chosen(Vec<Decl>),
    /// Several declarations: the user may be asked which to render.
    Ask(Vec<Decl>),
}

/// What a [`Narrowed`] means.
pub enum NarrowedV {
    Listing(Seq<char>),
    Chosen(Seq<DeclV>),
    Ask(Seq<DeclV>),
}

impl DeepView for Narrowed {
    type V = NarrowedV;

    open spec fn deep_view(&self) -> NarrowedV {
        match self {
            Narrowed::Listing(s) => NarrowedV::Listing(s@),
            Narrowed::Chosen(v) => NarrowedV::Chosen(v.deep_view()),
            Narrowed::Ask(v) => NarrowedV::Ask(v.deep_view()),
        }
    }
}

/// The declarations that the arguments ask for.
pub open spec fn narrowing(a: MermaidArgsV, decls: Seq<DeclV>) -> Result<NarrowedV, Seq<char>> {
    match exclusion(decls, a.exclude) {
        Err(e) => Err(e),
        Ok(left) => if a.list {
            Ok(NarrowedV::Listing(listed_from(left, ""@, 0, ""@)))
        } else {
            match a.select {
                Some(want) => match selection(left, want) {
                    Ok(v) => Ok(NarrowedV::Chosen(v)),
                    Err(e) => Err(e),
                },
                None => if left.len() > 1 && !a.all && !a.json && !a.watch && !a.check {
                    Ok(NarrowedV::Ask(left))
                } else {
                    Ok(NarrowedV::Chosen(left))
                },
            }
        },
    }
}

/// Finds the declarations that the arguments ask for, of those resolved.
pub fn narrow(a: &MermaidArgs, decls: Vec<Decl>) -> (r: Result<Narrowed, String>)
    ensures
        match r {
            Ok(n) => narrowing(a.deep_view(), decls.deep_view()) == Ok::<NarrowedV, Seq<char>>(n.deep_view()),
            Err(e) => narrowing(a.deep_view(), decls.deep_view()) == Err::<NarrowedV, Seq<char>>(e@),
        },
{
    let left = exclude_all(decls, &a.exclude)?;
    if a.list {
        return Ok(Narrowed::Listing(listing(&left, "")));
    }
    assert(left.deep_view().len() == left@.len());
    match &a.select {
        Some(want) => {
            let v = select(&left, want.as_str())?;
            Ok(Narrowed::Chosen(v))
        },
        None => if left.len() > 1 && !a.all && !a.json && !a.watch && !a.check {
            Ok(Narrowed::Ask(left))
        } else {
            Ok(Narrowed::Chosen(left))
        },
    }
}

/// Something to deliver.
#[derive(Debug)]
pub enum Action {
    /// Write to the output that was asked for.
    Write(String),
    /// Write a page to a file.
    Page(String, String),
    /// Render a diagram into an image file.
    Image(String, String),
    /// Rewrite the managed block of a file.
    Update(String, String),
    /// Say something to the user.
    Say(String),
}

/// What an [`Action`] means.
pub enum ActionV {
    Write(Seq<char>),
    Page(Seq<char>, Seq<char>),
    Image(Seq<char>, Seq<char>),
    Update(Seq<char>, Seq<char>),
    Say(Seq<char>),
}

impl DeepView for Action {
    type V = ActionV;

    open spec fn deep_view(&self) -> ActionV {
        match self {
            Action::Write(s) => ActionV::Write(s@),
            Action::Page(p, s) => ActionV::Page(p@, s@),
            Action::Image(p, s) => ActionV::Image(p@, s@),
            Action::Update(p, s) => ActionV::Update(p@, s@),
            Action::Say(s) => ActionV::Say(s@),
        }
    }
}

/// What to deliver, in order, and the complaint to end with.
#[derive(Debug)]
pub struct Plan {
    /// What to deliver.
    pub actions: Vec<Action>,
    /// The complaint, if any.
    pub error: Option<String>,
}

/// What a [`Plan`] means.
pub struct PlanV {
    pub actions: Seq<ActionV>,
    pub error: Option<Seq<char>>,
}

impl DeepView for Plan {
    type V = PlanV;

    open spec fn deep_view(&self) -> PlanV {
        PlanV { actions: self.actions.deep_view(), error: self.error.deep_view() }
    }
}

/// A number of things in words.
pub open spec fn counted(n: nat, what: Seq<char>) -> Seq<char> {
    decimal(n) + what + (if n == 1 {
        ""@
    } else {
        "s"@
    })
}

fn count_text(n: usize, what: &str) -> (r: String)
    ensures
        r@ == counted(n as nat, what@),
{
    let digits = decimal_usize(n);
    cat3(
        digits.as_str(),
        what,
        if n == 1 {
            ""
        } else {
            "s"
        },
    )
}

pub const DISAGREE: &'static str = " — the graphs and the `#[dataflow]` fns disagree; see above";

pub const AGREE: &'static str = ", graphs and `#[dataflow]` fns agree";

/// What `--check` comes to.
pub open spec fn check_plan(decls: nat, warned: nat) -> PlanV {
    if warned > 0 {
        PlanV {
            actions: Seq::empty(),
            error: Some("--check: "@ + counted(warned, " warning"@) + DISAGREE@),
        }
    } else {
        PlanV {
            actions: seq![ActionV::Say("--check: OK — "@ + counted(decls, " declaration"@) + AGREE@)],
            error: None,
        }
    }
}

fn no_actions() -> (r: Vec<Action>)
    ensures
        r.deep_view() == Seq::<ActionV>::empty(),
{
    let v: Vec<Action> = Vec::new();
    assert(v.deep_view() == Seq::<ActionV>::empty());
    v
}

/// Decides what `--check` comes to.
pub fn check(decls: usize, warned: usize) -> (r: Plan)
    ensures
        r.deep_view() == check_plan(decls as nat, warned as nat),
{
    if warned > 0 {
        let n = count_text(warned, " warning");
        return Plan {
            actions: no_actions(),
            error: Some(cat3("--check: ", n.as_str(), DISAGREE)),
        };
    }
    let mut actions = no_actions();
    let n = count_text(decls, " declaration");
    put(&mut actions, Action::Say(cat3("--check: OK — ", n.as_str(), AGREE)));
    assert(actions.deep_view() == check_plan(decls as nat, warned as nat).actions);
    Plan { actions, error: None }
}

/// The options that diagrams are drawn with: with what the sources hold, and without a legend where
/// it gets a diagram of its own.
pub open spec fn drawing_options(
    o: OptionsV,
    discovered: Seq<DiscoveredV>,
    bundles: Seq<BundleV>,
    apart: bool,
) -> OptionsV {
    OptionsV { discovered, bundles, legend: o.legend && !apart, ..o }
}

/// The legend gets a diagram of its own.
pub open spec fn legend_apart(a: MermaidArgsV) -> bool {
    (a.markdown || a.update is Some) && a.opts.legend
}

/// Declarations as diagrams, each with its heading.
pub open spec fn drawn(decls: Seq<DeclV>, o: OptionsV) -> Seq<(Seq<char>, Seq<char>)> {
    Seq::new(decls.len(), |i: int| (description(decls[i]), diagram(decls[i], o)))
}

/// The diagrams that the arguments ask for.
pub open spec fn diagrams_of(
    a: MermaidArgsV,
    decls: Seq<DeclV>,
    discovered: Seq<DiscoveredV>,
    bundles: Seq<BundleV>,
) -> Seq<(Seq<char>, Seq<char>)> {
    let apart = legend_apart(a);
    let all = drawn(decls, drawing_options(a.opts, discovered, bundles, apart));
    if apart {
        all.push(("legend"@, legend_alone(a.opts)))
    } else {
        all
    }
}

fn make_drawing_options(
    o: &Options,
    discovered: &Vec<Discovered>,
    bundles: &Vec<Bundle>,
    apart: bool,
) -> (r:
    Options)
    ensures
        r.deep_view() == drawing_options(
            o.deep_view(),
            discovered.deep_view(),
            bundles.deep_view(),
            apart,
        ),
{
    let mut opts = o.dup();
    opts.discovered = discovered.dup();
    opts.bundles = bundles.dup();
    opts.legend = o.legend && !apart;
    opts
}

/// Draws the diagrams that the arguments ask for.
pub fn draw(
    a: &MermaidArgs,
    decls: &Vec<Decl>,
    discovered: &Vec<Discovered>,
    bundles: &Vec<Bundle>,
) -> (r: Vec<
    (String, String),
>)
    ensures
        r.deep_view() == diagrams_of(
            a.deep_view(),
            decls.deep_view(),
            discovered.deep_view(),
            bundles.deep_view(),
        ),
{
    let apart = (a.markdown || a.update.is_some()) && a.opts.legend;
    let opts = make_drawing_options(&a.opts, discovered, bundles, apart);
    let ghost ov = opts.deep_view();
    let ghost all = drawn(decls.deep_view(), ov);
    let mut out: Vec<(String, String)> = Vec::new();
    let mut i: usize = 0;
    while i < decls.len()
        invariant
            i <= decls@.len(),
            opts.deep_view() == ov,
            all == drawn(decls.deep_view(), ov),
            out.deep_view() == all.take(i as int),
        decreases decls@.len() - i,
    {
        let heading = describe(&decls[i]);
        let code = crate::render(&decls[i], &opts);
        put(&mut out, (heading, code));
        i = i + 1;
        assert(out.deep_view() == all.take(i as int));
    }
    assert(all.take(all.len() as int) == all);
    if apart {
        put(&mut out, (text("legend"), legend_diagram(&a.opts)));
    }
    out
}

/// The page of diagrams.
pub open spec fn page_of(a: MermaidArgsV, diagrams: Seq<(Seq<char>, Seq<char>)>) -> Seq<char> {
    page_text(page_title(a.opts), diagrams, script_escaped(compact_json(sources_json(diagrams))))
}

pub const ONE_IMAGE: &'static str = "`--render` writes one image and there are ";

/// What to deliver of diagrams: what the arguments ask for, in turn; the diagrams themselves where
/// they ask for nothing else.
pub open spec fn delivery(a: MermaidArgsV, diagrams: Seq<(Seq<char>, Seq<char>)>) -> PlanV {
    let shared = if a.live_url {
        seq![ActionV::Write(links_from(diagrams, live_links(diagrams), 0, ""@))]
    } else {
        Seq::empty()
    };
    let paged = match a.html {
        Some(path) => shared.push(ActionV::Page(path, page_of(a, diagrams))),
        None => shared,
    };
    if a.render_to is Some && diagrams.len() > 1 {
        PlanV {
            actions: paged,
            error: Some(ONE_IMAGE@ + decimal(diagrams.len()) + " diagrams; --select one"@),
        }
    } else {
        let imaged = match a.render_to {
            Some(path) => paged.push(ActionV::Image(path, diagrams[0].1)),
            None => paged,
        };
        let updated = match a.update {
            Some(path) => imaged.push(ActionV::Update(path, fenced_from(diagrams, 0, ""@))),
            None => imaged,
        };
        PlanV {
            actions: if updated.len() > 0 {
                updated
            } else if a.markdown {
                seq![ActionV::Write(fenced_from(diagrams, 0, ""@))]
            } else {
                seq![ActionV::Write(joined(codes(diagrams), "\n"@))]
            },
            error: None,
        }
    }
}

/// Decides what to deliver of diagrams.
pub fn deliver(a: &MermaidArgs, diagrams: &Vec<(String, String)>) -> (r: Plan)
    requires
        a.render_to is Some ==> diagrams@.len() > 0,
    ensures
        r.deep_view() == delivery(a.deep_view(), diagrams.deep_view()),
{
    let ghost plan = delivery(a.deep_view(), diagrams.deep_view());
    let ghost ds = diagrams.deep_view();
    let mut actions = no_actions();
    if a.live_url {
        let links = make_live_links(diagrams);
        put(&mut actions, Action::Write(list_links(diagrams, &links)));
    }
    if let Some(path) = &a.html {
        let page = html_page(html_page_title(&a.opts), diagrams);
        put(&mut actions, Action::Page(path.dup(), page));
    }
    if let Some(path) = &a.render_to {
        if diagrams.len() > 1 {
            let n = decimal_usize(diagrams.len());
            return Plan {
                actions,
                error: Some(cat3(ONE_IMAGE, n.as_str(), " diagrams; --select one")),
            };
        }
        assert(ds[0] == diagrams@[0].deep_view());
        put(&mut actions, Action::Image(path.dup(), diagrams[0].1.dup()));
    }
    if let Some(path) = &a.update {
        put(&mut actions, Action::Update(path.dup(), fenced(diagrams)));
    }
    assert(actions.deep_view().len() == actions@.len());
    if actions.len() == 0 {
        let code = if a.markdown {
            fenced(diagrams)
        } else {
            let list = read_codes(diagrams);
            join(&list, "\n")
        };
        put(&mut actions, Action::Write(code));
        assert(actions.deep_view() == plan.actions);
    }
    Plan { actions, error: None }
}

/// The model that `--json` prints.
pub open spec fn model_text(
    decls: Seq<DeclV>,
    discovered: Seq<DiscoveredV>,
    warnings: Seq<Seq<char>>,
) -> Seq<char> {
    pretty_json(JsonV::Obj(json_model(decls, discovered).push(("warnings"@, strings(warnings))))) + "\n"@
}

/// What to deliver of the chosen declarations, given all warnings on them.
pub open spec fn finishing(
    a: MermaidArgsV,
    decls: Seq<DeclV>,
    scan: ScanV,
    warnings: Seq<Seq<char>>,
) -> PlanV {
    if a.check {
        check_plan(decls.len(), warnings.len())
    } else if a.json {
        PlanV {
            actions: seq![ActionV::Write(model_text(decls, scan.scanned_accesses, warnings))],
            error: None,
        }
    } else {
        delivery(a, diagrams_of(a, decls, scan.scanned_accesses, scan.bundles))
    }
}

/// Decides what to deliver of the chosen declarations, given all warnings on them.
pub fn finish(a: &MermaidArgs, decls: &Vec<Decl>, scan: &Scan, warnings: &Vec<String>) -> (r: Plan)
    requires
        a.render_to is Some ==> decls@.len() > 0,
    ensures
        r.deep_view() == finishing(
            a.deep_view(),
            decls.deep_view(),
            scan.deep_view(),
            warnings.deep_view(),
        ),
{
    assert(decls.deep_view().len() == decls@.len());
    assert(warnings.deep_view().len() == warnings@.len());
    if a.check {
        return check(decls.len(), warnings.len());
    }
    if a.json {
        let model = model_json_with_warnings(decls, &scan.scanned_accesses, warnings);
        let pretty = model.pretty();
        let mut actions = no_actions();
        put(&mut actions, Action::Write(cat2(pretty.as_str(), "\n")));
        assert(actions.deep_view() == finishing(
            a.deep_view(),
            decls.deep_view(),
            scan.deep_view(),
            warnings.deep_view(),
        ).actions);
        return Plan { actions, error: None };
    }
    let diagrams = draw(a, decls, &scan.scanned_accesses, &scan.bundles);
    assert(diagrams.deep_view().len() == diagrams@.len());
    deliver(a, &diagrams)
}

/// What comes of a scan before anyone is asked anything.
#[derive(Debug)]
pub struct Opening {
    /// The warnings from resolving the declarations.
    pub warnings: Vec<String>,
    /// The declarations to go on with, or the complaint to end with.
    pub next: Result<Narrowed, String>,
}

/// Resolves the scanned declarations and finds those that the arguments ask for.
pub fn begin(a: &MermaidArgs, scan: &Scan) -> (r: Result<Opening, String>)
    ensures
        ({
            let decls = scan.deep_view().decls;
            match r {
                Ok(o) => {
                    &&& decls.len() > 0
                    &&& o.warnings.deep_view() == resolved(decls).1
                    &&& match o.next {
                        Ok(n) => narrowing(a.deep_view(), resolved(decls).0) == Ok::<NarrowedV, Seq<char>>(
                            n.deep_view(),
                        ),
                        Err(e) => narrowing(a.deep_view(), resolved(decls).0) == Err::<
                            NarrowedV,
                            Seq<char>,
                        >(e@),
                    }
                },
                Err(e) => decls.len() == 0 && e@ == NO_DECLARATION@,
            }
        }),
{
    assert(scan.decls.deep_view().len() == scan.decls@.len());
    if scan.decls.len() == 0 {
        return Err(text(NO_DECLARATION));
    }
    let (decls, warnings) = resolve(&scan.decls);
    Ok(Opening { warnings, next: narrow(a, decls) })
}

/// The user can be asked: both ends are a terminal, and standard input is not an input.
pub open spec fn askable(files: Seq<Seq<char>>, stdin: bool, stderr: bool) -> bool {
    stdin && stderr && !files.contains("-"@)
}

/// Whether the user can be asked which declaration to render.
pub fn may_ask(files: &Vec<String>, stdin: bool, stderr: bool) -> (r: bool)
    ensures
        r == askable(files.deep_view(), stdin, stderr),
{
    stdin && stderr && !holds(files, "-")
}

/// Asks which declaration to render.
pub fn question(decls: &Vec<Decl>) -> (r: String)
    ensures
        r@ == decimal(decls.deep_view().len()) + " declarations found:\n"@ + listed_from(
            decls.deep_view(),
            "  "@,
            0,
            ""@,
        ) + "render which? [1-"@ + decimal(decls.deep_view().len()) + ", or `a` for all] "@,
{
    assert(decls.deep_view().len() == decls@.len());
    let n = decimal_usize(decls.len());
    let list = listing(decls, "  ");
    cat6(
        n.as_str(),
        " declarations found:\n",
        list.as_str(),
        "render which? [1-",
        n.as_str(),
        ", or `a` for all] ",
    )
}

/// What comes of the chosen declarations.
#[derive(Debug)]
pub struct Closing {
    /// The warnings on what their functions cover.
    pub warnings: Vec<String>,
    /// What to deliver.
    pub plan: Plan,
}

/// Concludes with the chosen declarations, given the warnings so far.
pub fn conclude(a: &MermaidArgs, decls: &Vec<Decl>, scan: &Scan, warnings: &Vec<String>) -> (r: Closing)
    requires
        a.render_to is Some ==> decls@.len() > 0,
    ensures
        ({
            let more = coverage(
                decls.deep_view(),
                scan.deep_view().fns,
                scan.deep_view().dep_fns,
                scan.deep_view().bundles,
            );
            r.warnings.deep_view() == more && r.plan.deep_view() == finishing(
                a.deep_view(),
                decls.deep_view(),
                scan.deep_view(),
                warnings.deep_view() + more,
            )
        }),
{
    let more = coverage_warnings(decls, &scan.fns, &scan.dep_fns, &scan.bundles);
    let mut all = warnings.dup();
    append(&mut all, &more);
    let plan = finish(a, decls, scan, &all);
    Closing { warnings: more, plan }
}

pub const WATCHING_STDIN: &'static str = "`--watch` cannot watch stdin";

/// Whether the sources can be watched: standard input cannot.
pub fn watchable(sources: &Sources) -> (r: Result<(), String>)
    ensures
        match r {
            Ok(()) => !sources.deep_view().graph.contains("-"@) && !sources.deep_view().scan_only.contains(
                "-"@,
            ),
            Err(e) => e@ == WATCHING_STDIN@ && (sources.deep_view().graph.contains("-"@)
                || sources.deep_view().scan_only.contains("-"@)),
        },
{
    if holds(&sources.graph, "-") || holds(&sources.scan_only, "-") {
        return Err(text(WATCHING_STDIN));
    }
    Ok(())
}

/// What the linting tool says, line by line, and whether it found anything.
#[derive(Debug)]
pub struct Report {
    /// The lines.
    pub lines: Vec<String>,
    /// There is a finding.
    pub failed: bool,
}

/// What a [`Report`] means.
pub struct ReportV {
    pub lines: Seq<Seq<char>>,
    pub failed: bool,
}

impl DeepView for Report {
    type V = ReportV;

    open spec fn deep_view(&self) -> ReportV {
        ReportV { lines: self.lines.deep_view(), failed: self.failed }
    }
}

/// The lines behind a mark, from number `i` on, behind `acc`.
pub open spec fn marked_from(
    list: Seq<Seq<char>>,
    mark: Seq<char>,
    i: int,
    acc: Seq<Seq<char>>,
) -> Seq<Seq<char>>
    decreases list.len() - i,
{
    if i < 0 || i >= list.len() {
        acc
    } else {
        marked_from(list, mark, i + 1, acc.push(mark + list[i]))
    }
}

fn add_marked(list: &Vec<String>, mark: &str, out: &mut Vec<String>)
    ensures
        final(out).deep_view() == marked_from(list.deep_view(), mark@, 0, old(out).deep_view()),
{
    let ghost start = out.deep_view();
    let ghost l = list.deep_view();
    let mut i: usize = 0;
    while i < list.len()
        invariant
            i <= list@.len(),
            l == list.deep_view(),
            marked_from(l, mark@, 0, start) == marked_from(l, mark@, i as int, out.deep_view()),
        decreases list@.len() - i,
    {
        put(out, cat2(mark, list[i].as_str()));
        i = i + 1;
    }
}

pub const MAY_BE_SHORT: &'static str = ": the model may be short — `supervisor-mermaid --check` is where those fail)";

/// The last line of a report.
pub open spec fn summary(decls: nat, findings: nat, warned: nat) -> Seq<char> {
    counted(decls, " declaration"@) + ", "@ + (if findings == 0 {
        "no findings"@
    } else {
        counted(findings, " finding"@)
    }) + (if warned == 0 {
        ""@
    } else {
        " ("@ + counted(warned, " warning"@) + MAY_BE_SHORT@
    })
}

fn summarize(decls: usize, findings: usize, warned: usize) -> (r: String)
    ensures
        r@ == summary(decls as nat, findings as nat, warned as nat),
{
    let first = count_text(decls, " declaration");
    let second = if findings == 0 {
        text("no findings")
    } else {
        count_text(findings, " finding")
    };
    let third = if warned == 0 {
        text("")
    } else {
        let n = count_text(warned, " warning");
        cat3(" (", n.as_str(), MAY_BE_SHORT)
    };
    cat4(first.as_str(), ", ", second.as_str(), third.as_str())
}

/// All warnings on declarations: from resolving them and from what their functions cover.
pub open spec fn all_warnings(scan: ScanV) -> Seq<Seq<char>> {
    resolved(scan.decls).1 + coverage(resolved(scan.decls).0, scan.fns, scan.dep_fns, scan.bundles)
}

/// The findings of the linting tool.
pub open spec fn all_findings(a: LintArgsV, scan: ScanV) -> Seq<Seq<char>> {
    coupling_lints(resolved(scan.decls).0, scan.scanned_accesses, scan.bundles, a.only, a.allow) + (
    if a.only.public_gate {
        gate_texts(scan.gate_statics, 0, Seq::empty())
    } else {
        Seq::empty()
    })
}

/// What the linting tool reports: warnings, findings and a summary; it fails where it finds
/// anything.
pub open spec fn report(a: LintArgsV, scan: ScanV) -> ReportV {
    let warned = marked_from(all_warnings(scan), "warning: "@, 0, Seq::empty());
    let found = marked_from(all_findings(a, scan), "lint: "@, 0, warned);
    ReportV {
        lines: found.push(
            summary(resolved(scan.decls).0.len(), all_findings(a, scan).len(), all_warnings(scan).len()),
        ),
        failed: all_findings(a, scan).len() > 0,
    }
}

/// Lints the scanned declarations.
pub fn lint(a: &LintArgs, scan: &Scan) -> (r: Result<Report, String>)
    ensures
        match r {
            Ok(v) => scan.deep_view().decls.len() > 0 && v.deep_view() == report(
                a.deep_view(),
                scan.deep_view(),
            ),
            Err(e) => scan.deep_view().decls.len() == 0 && e@ == NO_DECLARATION@,
        },
{
    assert(scan.decls.deep_view().len() == scan.decls@.len());
    if scan.decls.len() == 0 {
        return Err(text(NO_DECLARATION));
    }
    let (decls, mut warnings) = resolve(&scan.decls);
    let more = coverage_warnings(&decls, &scan.fns, &scan.dep_fns, &scan.bundles);
    append(&mut warnings, &more);
    let mut findings = dataflow_lints(&decls, &scan.scanned_accesses, &scan.bundles, &a.only, &a.allow);
    let gates = gate_lints(&scan.gate_statics, &a.only);
    append(&mut findings, &gates);
    let mut lines: Vec<String> = Vec::new();
    assert(lines.deep_view() == Seq::<Seq<char>>::empty());
    add_marked(&warnings, "warning: ", &mut lines);
    add_marked(&findings, "lint: ", &mut lines);
    assert(decls.deep_view().len() == decls@.len());
    assert(findings.deep_view().len() == findings@.len());
    assert(warnings.deep_view().len() == warnings@.len());
    put(&mut lines, summarize(decls.len(), findings.len(), warnings.len()));
    Ok(Report { lines, failed: findings.len() > 0 })
}

/// Of declarations to choose from, something is always chosen: what is narrowed down to, and what
/// an answer picks, is never nothing. So a single image always has a diagram to show.
pub proof fn something_is_always_chosen(a: MermaidArgsV, decls: Seq<DeclV>, answer: Seq<char>)
    requires
        decls.len() > 0,
    ensures
        narrowing(a, decls) matches Ok(NarrowedV::Chosen(v)) ==> v.len() > 0,
        narrowing(a, decls) matches Ok(NarrowedV::Ask(v)) ==> v.len() > 0,
        picked(decls, answer) matches Ok(v) ==> v.len() > 0,
{
}

} // verus!
