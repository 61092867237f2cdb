//! Toggle usage found in Rust sources: `#[toggle]`/`#[toggle_async]` attributes on functions and
//! explicit `execute_if_toggle_on` calls with a string-literal key.
//!
//! Parsing the sources is the program's job; what it hands over is, per file and in source
//! order, the functions with their attributes and the calls with their string-literal arguments.
//! The rules for turning those into usages live here.

use vstd::prelude::*;
use vstd::string::*;

use crate::text::{owned, str_eq};

verus! {

/// One discovered toggle usage.
#[derive(Debug, Clone)]
pub struct ToggleUsage {
    /// The resolved toggle key.
    pub key: String,
    /// The function carrying the attribute (empty for an explicit call).
    pub method: String,
    /// The source label: `#[toggle]`, `#[toggle_async]`, `ManualCall`, `ManualCallAsync`.
    pub source: String,
    /// Path of the file, relative to the scan root.
    pub file: String,
    /// 1-based line number.
    pub line: usize,
}

/// The arguments of a toggle attribute, as far as the key rules read them.
pub enum ToggleArgs {
    /// No arguments (`#[toggle]`).
    Empty,
    /// Arguments of the form `<path> = <value>`: the path when it is a single identifier, and the
    /// value's text when it is a string literal.
    NameValue { path: Option<String>, literal: Option<String> },
    /// Arguments of any other form, with the parser's message.
    Malformed(String),
}

/// An attribute on a function: its path when that is a single identifier, and its arguments.
pub struct AttributeSyntax {
    pub path: Option<String>,
    pub args: ToggleArgs,
}

/// What a source file holds that toggle usage can come from, in source order.
pub enum SourceItem {
    /// A function (free or in an impl) with its name, the line of its name, and its attributes.
    Function { name: String, line: usize, attributes: Vec<AttributeSyntax> },
    /// A call: the last segment of the called path (when the callee is a path) and the
    /// string-literal arguments, each with its line, in argument order.
    Call { function: Option<String>, string_args: Vec<(String, usize)> },
}

/// The label of a toggle attribute path, if it is one.
pub open spec fn attribute_label(path: Option<Seq<char>>) -> Option<Seq<char>> {
    match path {
        Some(p) => if p == "toggle"@ {
            Some("#[toggle]"@)
        } else if p == "toggle_async"@ {
            Some("#[toggle_async]"@)
        } else {
            None
        },
        None => None,
    }
}

/// The explicit key of a toggle attribute: `key = "<text>"`.
pub open spec fn explicit_key_of(path: Option<Seq<char>>, literal: Option<Seq<char>>) -> Option<
    Seq<char>,
> {
    if path == Some("key"@) {
        literal
    } else {
        None
    }
}

/// The label of an explicit gated call, if the callee is one.
pub open spec fn call_label(function: Option<Seq<char>>) -> Option<Seq<char>> {
    match function {
        Some(f) => if f == "execute_if_toggle_on"@ || f == "try_execute_if_toggle_on"@ {
            Some("ManualCall"@)
        } else if f == "execute_if_toggle_on_async"@ || f == "try_execute_if_toggle_on_async"@ {
            Some("ManualCallAsync"@)
        } else {
            None
        },
        None => None,
    }
}

/// A usage, by its views: key, method, source, file, line.
pub type UsageModel = (Seq<char>, Seq<char>, Seq<char>, Seq<char>, nat);

pub open spec fn usage_view(u: ToggleUsage) -> UsageModel {
    (u.key@, u.method@, u.source@, u.file@, u.line as nat)
}

pub open spec fn usages_view(us: Seq<ToggleUsage>) -> Seq<UsageModel> {
    us.map_values(|u: ToggleUsage| usage_view(u))
}

pub open spec fn opt_text(o: Option<String>) -> Option<Seq<char>> {
    match o {
        Some(s) => Some(s@),
        None => None,
    }
}

/// The explicit key an attribute's arguments give, if any.
pub open spec fn args_key(args: ToggleArgs) -> Option<Seq<char>> {
    match args {
        ToggleArgs::NameValue { path, literal } => explicit_key_of(opt_text(path), opt_text(literal)),
        _ => None,
    }
}

/// The usages the attributes of a function give, in attribute order.
pub open spec fn attribute_usages(
    file: Seq<char>,
    name: Seq<char>,
    line: nat,
    attributes: Seq<AttributeSyntax>,
) -> Seq<UsageModel>
    decreases attributes.len(),
{
    if attributes.len() == 0 {
        Seq::empty()
    } else {
        let before = attribute_usages(file, name, line, attributes.drop_last());
        let a = attributes.last();
        match attribute_label(opt_text(a.path)) {
            Some(label) => before.push(
                (
                    match args_key(a.args) {
                        Some(k) => k,
                        None => name,
                    },
                    name,
                    label,
                    file,
                    line,
                ),
            ),
            None => before,
        }
    }
}

/// The usage an explicit call gives: its first string-literal argument is the key.
pub open spec fn call_usages(file: Seq<char>, function: Option<Seq<char>>, string_args: Seq<(String, usize)>) -> Seq<
    UsageModel,
> {
    match call_label(function) {
        Some(label) => if string_args.len() > 0 {
            seq![(string_args[0].0@, Seq::<char>::empty(), label, file, string_args[0].1 as nat)]
        } else {
            Seq::empty()
        },
        None => Seq::empty(),
    }
}

/// The usages of one item.
pub open spec fn item_usages(file: Seq<char>, item: SourceItem) -> Seq<UsageModel> {
    match item {
        SourceItem::Function { name, line, attributes } => attribute_usages(
            file,
            name@,
            line as nat,
            attributes@,
        ),
        SourceItem::Call { function, string_args } => call_usages(file, opt_text(function), string_args@),
    }
}

/// The usages of a file's items, in item order.
pub open spec fn file_usages(file: Seq<char>, items: Seq<SourceItem>) -> Seq<UsageModel>
    decreases items.len(),
{
    if items.len() == 0 {
        Seq::empty()
    } else {
        file_usages(file, items.drop_last()) + item_usages(file, items.last())
    }
}

fn text_is(s: &Option<String>, word: &str) -> (b: bool)
    ensures
        b == (opt_text(*s) == Some(word@)),
{
    match s {
        Some(t) => str_eq(t.as_str(), word),
        None => false,
    }
}

/// The explicit key of a toggle attribute's arguments (`key = "<text>"`), if present.
pub fn explicit_key(args: &ToggleArgs) -> (r: Option<String>)
    ensures
        opt_text(r) == args_key(*args),
{
    match args {
        ToggleArgs::NameValue { path, literal } => {
            if text_is(path, "key") {
                match literal {
                    Some(l) => Some(l.clone()),
                    None => None,
                }
            } else {
                None
            }
        },
        _ => None,
    }
}

/// The label of a toggle attribute path, if it is one.
fn attribute_label_of(path: &Option<String>) -> (r: Option<String>)
    ensures
        opt_text(r) == attribute_label(opt_text(*path)),
{
    if text_is(path, "toggle") {
        Some(String::from_str("#[toggle]"))
    } else if text_is(path, "toggle_async") {
        Some(String::from_str("#[toggle_async]"))
    } else {
        None
    }
}

/// The label of an explicit gated call, if the callee is one.
fn call_label_of(function: &Option<String>) -> (r: Option<String>)
    ensures
        opt_text(r) == call_label(opt_text(*function)),
{
    if text_is(function, "execute_if_toggle_on") || text_is(function, "try_execute_if_toggle_on") {
        Some(String::from_str("ManualCall"))
    } else if text_is(function, "execute_if_toggle_on_async") || text_is(
        function,
        "try_execute_if_toggle_on_async",
    ) {
        Some(String::from_str("ManualCallAsync"))
    } else {
        None
    }
}

/// Record the usages of a function's toggle attributes: the key is the explicit one, or the
/// function's name.
pub fn handle_attributes(
    usages: &mut Vec<ToggleUsage>,
    file: &str,
    attributes: &[AttributeSyntax],
    method_name: &str,
    line: usize,
)
    ensures
        usages_view(final(usages)@) == usages_view(old(usages)@) + attribute_usages(
            file@,
            method_name@,
            line as nat,
            attributes@,
        ),
{
    let ghost start = usages_view(usages@);
    let mut i: usize = 0;
    assert(attributes@.take(0) =~= Seq::<AttributeSyntax>::empty());
    assert(usages_view(usages@) =~= start + attribute_usages(file@, method_name@, line as nat, attributes@.take(0)));
    while i < attributes.len()
        invariant
            i <= attributes@.len(),
            usages_view(usages@) == start + attribute_usages(
                file@,
                method_name@,
                line as nat,
                attributes@.take(i as int),
            ),
        decreases attributes@.len() - i,
    {
        let attribute = &attributes[i];
        proof {
            assert(attributes@.take(i + 1).drop_last() =~= attributes@.take(i as int));
            assert(attributes@.take(i + 1).last() == *attribute);
        }
        match attribute_label_of(&attribute.path) {
            Some(label) => {
                let key = match explicit_key(&attribute.args) {
                    Some(k) => k,
                    None => owned(method_name),
                };
                let usage = ToggleUsage {
                    key,
                    method: owned(method_name),
                    source: label,
                    file: owned(file),
                    line,
                };
                let ghost before = usages@;
                usages.push(usage);
                assert(usages_view(usages@) =~= usages_view(before).push(usage_view(usage)));
            },
            None => {},
        }
        i = i + 1;
    }
    assert(attributes@.take(i as int) =~= attributes@);
}

/// Recognise an explicit gated call and record its usage, keyed by its first string-literal
/// argument.
pub fn manual_call(usages: &mut Vec<ToggleUsage>, file: &str, function: &Option<String>, string_args: &[(String, usize)])
    ensures
        usages_view(final(usages)@) == usages_view(old(usages)@) + call_usages(
            file@,
            opt_text(*function),
            string_args@,
        ),
{
    let ghost before = usages@;
    match call_label_of(function) {
        Some(label) => {
            if string_args.len() > 0 {
                let usage = ToggleUsage {
                    key: string_args[0].0.clone(),
                    method: String::new(),
                    source: label,
                    file: owned(file),
                    line: string_args[0].1,
                };
                usages.push(usage);
                assert(usages_view(usages@) =~= usages_view(before) + call_usages(
                    file@,
                    opt_text(*function),
                    string_args@,
                ));
            } else {
                assert(usages_view(usages@) =~= usages_view(before) + call_usages(
                    file@,
                    opt_text(*function),
                    string_args@,
                ));
            }
        },
        None => {
            assert(usages_view(usages@) =~= usages_view(before) + call_usages(
                file@,
                opt_text(*function),
                string_args@,
            ));
        },
    }
}

/// The toggle usages of one source file, in source order.
pub fn collect_usages(file: &str, items: &[SourceItem]) -> (r: Vec<ToggleUsage>)
    ensures
        usages_view(r@) == file_usages(file@, items@),
{
    let mut usages: Vec<ToggleUsage> = Vec::new();
    let mut i: usize = 0;
    assert(items@.take(0) =~= Seq::<SourceItem>::empty());
    assert(usages_view(usages@) =~= Seq::<UsageModel>::empty());
    while i < items.len()
        invariant
            i <= items@.len(),
            usages_view(usages@) == file_usages(file@, items@.take(i as int)),
        decreases items@.len() - i,
    {
        proof {
            assert(items@.take(i + 1).drop_last() =~= items@.take(i as int));
            assert(items@.take(i + 1).last() == items@[i as int]);
        }
        match &items[i] {
            SourceItem::Function { name, line, attributes } => {
                handle_attributes(&mut usages, file, attributes.as_slice(), name.as_str(), *line);
            },
            SourceItem::Call { function, string_args } => {
                manual_call(&mut usages, file, function, string_args.as_slice());
            },
        }
        i = i + 1;
    }
    assert(items@.take(i as int) =~= items@);
    usages
}

/// The directory names a scan never descends into.
pub open spec fn skipped_scan_dir(name: Seq<char>) -> bool {
    name == "target"@ || name == ".git"@ || name == "node_modules"@ || name == ".idea"@ || name
        == ".vscode"@ || name == "dist"@ || name == "build"@
}

/// Whether a scan skips a directory of this name.
pub fn is_skipped_scan_dir(name: &str) -> (b: bool)
    ensures
        b == skipped_scan_dir(name@),
{
    str_eq(name, "target") || str_eq(name, ".git") || str_eq(name, "node_modules") || str_eq(
        name,
        ".idea",
    ) || str_eq(name, ".vscode") || str_eq(name, "dist") || str_eq(name, "build")
}

/// The key a `#[toggle]`/`#[toggle_async]` attribute gives the function it decorates: the
/// function's name without arguments, the string of `key = "<text>"`, or the error to report.
pub open spec fn attribute_key(args: ToggleArgs, function_name: Seq<char>) -> Result<Seq<char>, Seq<char>> {
    match args {
        ToggleArgs::Empty => Ok(function_name),
        ToggleArgs::Malformed(message) => Err(message@),
        ToggleArgs::NameValue { path, literal } => if opt_text(path) != Some("key"@) {
            Err("expected `key = \"...\"`"@)
        } else {
            match literal {
                Some(l) => Ok(l@),
                None => Err("the `key` value must be a string literal"@),
            }
        },
    }
}

/// Resolve the toggle key of a decorated function from the attribute's arguments.
pub fn resolve_toggle_key(args: &ToggleArgs, function_name: &str) -> (r: Result<String, String>)
    ensures
        match r {
            Ok(k) => attribute_key(*args, function_name@) == Ok::<Seq<char>, Seq<char>>(k@),
            Err(e) => attribute_key(*args, function_name@) == Err::<Seq<char>, Seq<char>>(e@),
        },
{
    match args {
        ToggleArgs::Empty => Ok(owned(function_name)),
        ToggleArgs::Malformed(message) => Err(message.clone()),
        ToggleArgs::NameValue { path, literal } => {
            if !text_is(path, "key") {
                return Err(String::from_str("expected `key = \"...\"`"));
            }
            match literal {
                Some(l) => Ok(l.clone()),
                None => Err(String::from_str("the `key` value must be a string literal")),
            }
        },
    }
}

} // verus!
