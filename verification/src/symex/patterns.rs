//! Regular expressions over symbol names, and the program counter hooks
//! they select.
use vstd::prelude::*;
use crate::symex::project::PCHook;

verus! {

/// The regular expressions of the `regex` crate.
#[verifier::external_type_specification]
#[verifier::external_body]
pub struct ExRegex(regex::Regex);

/// Whether `pattern` is a regular expression that `regex` compiles.
pub uninterp spec fn pattern_compiles(pattern: Seq<char>) -> bool;

/// Whether the regular expression `pattern` matches somewhere in `text`.
pub uninterp spec fn pattern_matches(pattern: Seq<char>, text: Seq<char>) -> bool;

/// A compiled regular expression with its source.
pub struct Pattern {
    source: String,
    re: regex::Regex,
}

impl Pattern {
    /// The source of the expression.
    pub closed spec fn source(self) -> Seq<char> {
        self.source@
    }
}

/// Compiles a regular expression with `regex::Regex::new`; the contract
/// claims that the outcome depends on the pattern alone.
#[verifier::external_body]
fn regex_new(pattern: &str) -> (r: Option<regex::Regex>)
    ensures
        r is Some == pattern_compiles(pattern@),
{
    regex::Regex::new(pattern).ok()
}

/// Searches `text` with `regex::Regex::is_match`; the contract claims that
/// the answer depends on the source of the expression and the text alone.
#[verifier::external_body]
fn regex_is_match(pattern: &Pattern, text: &str) -> (r: bool)
    ensures
        r == pattern_matches(pattern.source(), text@),
{
    pattern.re.is_match(text)
}

/// Compiles `source`; `None` when it is not a valid regular expression.
pub fn compile(source: &str) -> (r: Option<Pattern>)
    ensures
        r is Some == pattern_compiles(source@),
        r matches Some(p) ==> p.source() == source@,
{
    match regex_new(source) {
        Some(re) => Some(Pattern { source: source.to_owned(), re }),
        None => None,
    }
}

/// The hooks, in order, whose pattern compiles and matches `name`, each at `address`.
pub open spec fn hooks_for(hooks: Seq<(String, PCHook)>, name: Seq<char>, address: u64) -> Seq<(u64, PCHook)>
    decreases hooks.len(),
{
    if hooks.len() == 0 {
        Seq::empty()
    } else {
        let rest = hooks_for(hooks.drop_last(), name, address);
        if pattern_compiles(hooks.last().0@) && pattern_matches(hooks.last().0@, name) {
            rest.push((address, hooks.last().1))
        } else {
            rest
        }
    }
}

/// The hooks of every function, in the order of the functions.
pub open spec fn hooks_for_all(hooks: Seq<(String, PCHook)>, functions: Seq<(String, u64)>) -> Seq<(u64, PCHook)>
    decreases functions.len(),
{
    if functions.len() == 0 {
        Seq::empty()
    } else {
        hooks_for_all(hooks, functions.drop_last()) + hooks_for(hooks, functions.last().0@, functions.last().1)
    }
}

/// The program counter hooks of a program: for each function, given by its
/// name and start address, and for each hook whose pattern matches the
/// name, the hook at the function's address. A pattern that does not
/// compile matches nothing.
pub fn construct_pc_hooks(hooks: &Vec<(String, PCHook)>, functions: &Vec<(String, u64)>) -> (r: Vec<(u64, PCHook)>)
    ensures
        r@ == hooks_for_all(hooks@, functions@),
{
    let mut compiled: Vec<Option<Pattern>> = Vec::new();
    let mut h: usize = 0;
    while h < hooks.len()
        invariant
            h <= hooks@.len(),
            compiled@.len() == h,
            forall|j: int| 0 <= j < h ==> ((#[trigger] compiled@[j]) is Some == pattern_compiles(hooks@[j].0@))
                && (compiled@[j] matches Some(p) ==> p.source() == hooks@[j].0@),
        decreases hooks.len() - h,
    {
        compiled.push(compile(hooks[h].0.as_str()));
        h = h + 1;
    }
    let mut ret: Vec<(u64, PCHook)> = Vec::new();
    let mut f: usize = 0;
    while f < functions.len()
        invariant
            f <= functions@.len(),
            compiled@.len() == hooks@.len(),
            forall|j: int| 0 <= j < hooks@.len() ==> ((#[trigger] compiled@[j]) is Some == pattern_compiles(hooks@[j].0@))
                && (compiled@[j] matches Some(p) ==> p.source() == hooks@[j].0@),
            ret@ == hooks_for_all(hooks@, functions@.take(f as int)),
        decreases functions.len() - f,
    {
        let ghost before = ret@;
        let name: &str = functions[f].0.as_str();
        let address: u64 = functions[f].1;
        let mut h: usize = 0;
        while h < hooks.len()
            invariant
                h <= hooks@.len(),
                f < functions@.len(),
                name@ == functions@[f as int].0@,
                address == functions@[f as int].1,
                compiled@.len() == hooks@.len(),
                forall|j: int| 0 <= j < hooks@.len() ==> ((#[trigger] compiled@[j]) is Some == pattern_compiles(hooks@[j].0@))
                    && (compiled@[j] matches Some(p) ==> p.source() == hooks@[j].0@),
                ret@ == before + hooks_for(hooks@.take(h as int), name@, address),
            decreases hooks.len() - h,
        {
            proof {
                assert(hooks@.take(h + 1).drop_last() =~= hooks@.take(h as int));
            }
            match &compiled[h] {
                Some(p) => {
                    if regex_is_match(p, name) {
                        ret.push((address, hooks[h].1));
                    }
                },
                None => {},
            }
            proof {
                assert(ret@ =~= before + hooks_for(hooks@.take(h + 1), name@, address));
            }
            h = h + 1;
        }
        proof {
            assert(hooks@.take(hooks@.len() as int) =~= hooks@);
            assert(functions@.take(f + 1).drop_last() =~= functions@.take(f as int));
        }
        f = f + 1;
    }
    proof {
        assert(functions@.take(functions@.len() as int) =~= functions@);
    }
    ret
}

} // verus!
