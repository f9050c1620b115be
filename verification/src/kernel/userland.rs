//! Choosing a user application and loading its BLisp program.
use vstd::prelude::*;

verus! {

/// A parsed BLisp program, ready for type checking.
#[verifier::external_type_specification]
#[verifier::external_body]
pub struct ExTypingContext(blisp::TypingContext);

/// An error of BLisp, with its message and position.
#[verifier::external_type_specification]
#[verifier::external_body]
pub struct ExLispErr(blisp::LispErr);

/// Whether `blisp::init` reads the program text `code`, with no foreign functions: the
/// prelude and `code` parse, and their macros expand.
pub uninterp spec fn lisp_init_accepts(code: Seq<char>) -> bool;

/// The most opening brackets a loadable program may hold: no expression in it is then
/// nested deeper than this.
pub const MAX_OPENERS: usize = 254;

/// The number of opening brackets, `(` and `[`, in `s`.
pub open spec fn openers(s: Seq<char>) -> nat
    decreases s.len(),
{
    if s.len() == 0 {
        0
    } else {
        openers(s.drop_last()) + (if s.last() == '(' || s.last() == '[' { 1nat } else { 0nat })
    }
}

/// The word `macro` starts at position `i` of `s`.
pub open spec fn macro_at(s: Seq<char>, i: int) -> bool {
    &&& 0 <= i && i + 5 <= s.len()
    &&& s[i] == 'm' && s[i + 1] == 'a' && s[i + 2] == 'c' && s[i + 3] == 'r' && s[i + 4] == 'o'
}

/// Program texts that `blisp::init` reads without panicking: all ASCII (its parser counts
/// characters but slices by bytes, so a comment with non-ASCII characters breaks it), no
/// more than `MAX_OPENERS` opening brackets (its macro expansion panics on an expression
/// nested 255 deep, and no expression is nested deeper than there are opening brackets),
/// and no word `macro` (no macro definitions, whose reading unwraps its parts).
pub open spec fn loadable(s: Seq<char>) -> bool {
    &&& vstd::utf8::is_ascii_chars(s)
    &&& openers(s) <= MAX_OPENERS
    &&& !exists|i: int| #[trigger] macro_at(s, i)
}

/// Whether `code` is `loadable`.
pub fn loadable_text(code: &str) -> (r: bool)
    ensures
        r == loadable(code@),
{
    if !code.is_ascii() {
        return false;
    }
    let n = code.unicode_len();
    let mut count: usize = 0;
    let mut found = false;
    let mut i: usize = 0;
    while i < n
        invariant
            n == code@.len(),
            0 <= i <= n,
            count == openers(code@.subrange(0, i as int)),
            count <= i,
            found <==> exists|j: int| 0 <= j < i && #[trigger] macro_at(code@, j),
        decreases n - i,
    {
        let c = code.get_char(i);
        proof {
            assert(code@.subrange(0, i as int + 1).drop_last() =~= code@.subrange(0, i as int));
        }
        if c == '(' || c == '[' {
            count = count + 1;
        }
        let ghost was = found;
        if !found && n - i >= 5 {
            if c == 'm' && code.get_char(i + 1) == 'a' && code.get_char(i + 2) == 'c' && code.get_char(i + 3) == 'r'
                && code.get_char(i + 4) == 'o' {
                found = true;
                assert(macro_at(code@, i as int));
            }
        }
        proof {
            if !found {
                assert(!macro_at(code@, i as int));
            }
            if was {
                let j = choose|j: int| 0 <= j < i && #[trigger] macro_at(code@, j);
                assert(0 <= j < i + 1 && macro_at(code@, j));
            }
        }
        i += 1;
    }
    proof {
        assert(code@.subrange(0, n as int) =~= code@);
        assert forall|j: int| #[trigger] macro_at(code@, j) implies 0 <= j < n by {}
    }
    !found && count <= MAX_OPENERS
}

/// `blisp::init(code, vec![])`: parses the prelude and `code` and expands the macros.
/// Claimed: on a `loadable` text it returns, and it succeeds exactly when
/// `lisp_init_accepts(code)`, a function of the text alone (parsing and macro expansion
/// read nothing else).
#[verifier::external_body]
fn lisp_init(code: &str) -> (r: Result<blisp::TypingContext, blisp::LispErr>)
    requires
        loadable(code@),
    ensures
        r is Ok <==> lisp_init_accepts(code@),
{
    blisp::init(code, Vec::new())
}

/// The program of application `id`, if there is one.
pub fn get_app<'a>(id: usize, apps: &[&'a str]) -> (r: Option<&'a str>)
    ensures
        id < apps@.len() ==> r == Some(apps@[id as int]),
        id >= apps@.len() ==> r is None,
{
    if id >= apps.len() {
        None
    } else {
        Some(apps[id])
    }
}

/// Why a program could not be loaded: BLisp refused it, or it is not `loadable`, so it
/// is not handed to BLisp at all.
pub enum LoadErr {
    Init(blisp::LispErr),
    Unloadable,
}

/// Loads application `app` of `apps`: no program if there is no such application;
/// otherwise, for a loadable text, the text parsed by BLisp or the error that stopped
/// the parse.
pub fn load_app(app: usize, apps: &[&str]) -> (r: Option<Result<blisp::TypingContext, LoadErr>>)
    ensures
        app >= apps@.len() ==> r is None,
        app < apps@.len() ==> (r matches Some(x) && {
            &&& (x matches Err(LoadErr::Unloadable)) <==> !loadable(apps@[app as int]@)
            &&& x is Ok <==> loadable(apps@[app as int]@) && lisp_init_accepts(apps@[app as int]@)
        }),
{
    let code = match get_app(app, apps) {
        Some(c) => c,
        None => {
            return None;
        },
    };
    if !loadable_text(code) {
        return Some(Err(LoadErr::Unloadable));
    }
    match lisp_init(code) {
        Ok(c) => Some(Ok(c)),
        Err(e) => Some(Err(LoadErr::Init(e))),
    }
}

} // verus!
