//! Derivation of workload identities from namespace, name and kind, and the
//! checks on the names and kind strings that they are derived from.

use vstd::prelude::*;
use vstd::string::*;

use crate::error::ProcessError;
use crate::error::ProcessErrorView;
use crate::process::ProcessKind;

verus! {

/// The namespace that stands for an unspecified one.
pub open spec fn default_namespace() -> Seq<char> {
    "global"@
}

/// The namespace a request refers to: the given one, or the default.
pub open spec fn resolved_namespace(nsp: Option<Seq<char>>) -> Seq<char> {
    match nsp {
        Some(n) => n,
        None => default_namespace(),
    }
}

/// The identity of a namespaced workload: its name, a dot, its namespace.
pub open spec fn key_of(nsp: Seq<char>, name: Seq<char>) -> Seq<char> {
    name + "."@ + nsp
}

/// The identity under which the processes of a workload are found: the name
/// alone for a job, which belongs to no namespace, and the key in the
/// resolved namespace for a cargo or a virtual machine.
pub open spec fn kind_key_of(kind: ProcessKind, name: Seq<char>, nsp: Option<Seq<char>>) -> Seq<
    char,
> {
    match kind {
        ProcessKind::Job => name,
        ProcessKind::Cargo | ProcessKind::Vm => key_of(resolved_namespace(nsp), name),
    }
}

/// Resolves the namespace of a request, which is `global` when none is given.
pub fn resolve_nsp(nsp: &Option<String>) -> (res: String)
    ensures
        res@ == resolved_namespace(nsp.deep_view()),
{
    match nsp {
        None => "global".to_owned(),
        Some(n) => n.clone(),
    }
}

/// Generates the key of a workload from its namespace and its name.
pub fn gen_key(nsp: &str, name: &str) -> (res: String)
    ensures
        res@ == key_of(nsp@, name@),
{
    let mut key = name.to_owned();
    key.append(".");
    key.append(nsp);
    key
}

/// Generates the key under which the processes of a workload are kept.
pub fn gen_kind_key(kind: &ProcessKind, name: &str, namespace: &Option<String>) -> (res: String)
    ensures
        res@ == kind_key_of(*kind, name@, namespace.deep_view()),
{
    match kind {
        ProcessKind::Job => name.to_owned(),
        ProcessKind::Cargo | ProcessKind::Vm => {
            let namespace = resolve_nsp(namespace);
            gen_key(namespace.as_str(), name)
        },
    }
}

/// A job belongs to no namespace: whatever namespace is given, the key
/// under which its processes are kept is its name.
pub proof fn lemma_job_kind_key(name: Seq<char>, nsp: Option<Seq<char>>)
    ensures
        kind_key_of(ProcessKind::Job, name, nsp) == name,
{
}

/// A cargo and a virtual machine are kept under their key in the resolved
/// namespace, which is `global` where none is given.
pub proof fn lemma_namespaced_kind_key(kind: ProcessKind, name: Seq<char>, nsp: Option<Seq<char>>)
    requires
        kind != ProcessKind::Job,
    ensures
        kind_key_of(kind, name, nsp) == key_of(resolved_namespace(nsp), name),
        kind_key_of(kind, name, None) == name + "."@ + "global"@,
        nsp matches Some(n) ==> kind_key_of(kind, name, nsp) == name + "."@ + n,
{
}

/// Whether the character is an ASCII letter or digit.
pub open spec fn is_alphanumeric(c: char) -> bool {
    ('a' <= c && c <= 'z') || ('A' <= c && c <= 'Z') || ('0' <= c && c <= '9')
}

/// Whether the character may stand in a workload's name.
pub open spec fn is_name_char(c: char) -> bool {
    is_alphanumeric(c) || c == '-' || c == '_'
}

/// Whether every character of the name may stand in a name.
pub open spec fn is_valid_name(name: Seq<char>) -> bool {
    forall|i: int| 0 <= i < name.len() ==> is_name_char(#[trigger] name[i])
}

/// What a rejected name is answered with.
pub open spec fn invalid_name_message(name: Seq<char>) -> Seq<char> {
    "Vm image name "@ + name + " is invalid"@
}

fn name_char_allowed(c: char) -> (res: bool)
    ensures
        res == is_name_char(c),
{
    (c >= 'a' && c <= 'z') || (c >= 'A' && c <= 'Z') || (c >= '0' && c <= '9') || c == '-' || c
        == '_'
}

/// Validates the name of a workload: it may hold ASCII letters, digits, `-`
/// and `_`, and nothing else.
pub fn validate_name(name: &str) -> (res: Result<(), ProcessError>)
    ensures
        res is Ok <==> is_valid_name(name@),
        res matches Err(e) ==> e@ == ProcessErrorView::Validation(invalid_name_message(name@)),
{
    for c in it: name.chars()
        invariant
            it.seq() == name@,
            forall|i: int| 0 <= i < it.index() ==> is_name_char(#[trigger] name@[i]),
    {
        if !name_char_allowed(c) {
            let mut message = "Vm image name ".to_owned();
            message.append(name);
            message.append(" is invalid");
            return Err(ProcessError::Validation(message));
        }
    }
    Ok(())
}

/// Whether `at` is the place of a `/` in the text, and of the only one.
pub open spec fn is_only_separator(text: Seq<char>, at: int) -> bool {
    &&& 0 <= at < text.len()
    &&& text[at] == '/'
    &&& forall|j: int| 0 <= j < text.len() && text[j] == '/' ==> j == at
}

/// Whether `/` splits the text into exactly two segments, as in
/// `domain.tld/kind`.
pub open spec fn has_two_segments(text: Seq<char>) -> bool {
    exists|at: int| is_only_separator(text, at)
}

/// The second of the two segments: what follows the `/`.
pub open spec fn second_segment(text: Seq<char>) -> Seq<char>
    recommends
        has_two_segments(text),
{
    let at = choose|at: int| is_only_separator(text, at);
    text.skip(at + 1)
}

/// What a kind string of another form is answered with.
pub open spec fn malformed_kind_message() -> Seq<char> {
    "Kind must be of the form `domain.tld/kind`"@
}

/// Splits a kind string at its `/`: the second segment where there are
/// exactly two, and nothing otherwise.
pub fn kind_segment(kind: &str) -> (res: Option<String>)
    ensures
        res is Some <==> has_two_segments(kind@),
        res matches Some(s) ==> s@ == second_segment(kind@),
{
    let mut separators: u8 = 0;
    let mut tail = String::new();
    let ghost mut first: int = 0;
    let ghost mut second: int = 0;
    for c in it: kind.chars()
        invariant
            it.seq() == kind@,
            separators <= 2,
            separators == 0 ==> tail@.len() == 0 && forall|j: int|
                0 <= j < it.index() ==> kind@[j] != '/',
            separators == 1 ==> {
                &&& 0 <= first < it.index()
                &&& kind@[first] == '/'
                &&& forall|j: int| 0 <= j < it.index() && kind@[j] == '/' ==> j == first
                &&& tail@ == kind@.subrange(first + 1, it.index())
            },
            separators == 2 ==> {
                &&& 0 <= first < second < it.index()
                &&& kind@[first] == '/'
                &&& kind@[second] == '/'
            },
    {
        let ghost at = it.index();
        if c == '/' {
            if separators == 0 {
                separators = 1;
                proof {
                    first = at;
                    assert(tail@ =~= kind@.subrange(first + 1, at + 1));
                }
            } else if separators == 1 {
                separators = 2;
                proof {
                    second = at;
                }
            }
        } else if separators == 1 {
            tail.push(c);
            assert(tail@ =~= kind@.subrange(first + 1, at + 1));
        }
    }
    if separators == 1 {
        proof {
            assert(is_only_separator(kind@, first));
            let at = choose|at: int| is_only_separator(kind@, at);
            assert(at == first);
            assert(tail@ =~= kind@.skip(first + 1));
        }
        Some(tail)
    } else {
        proof {
            if separators == 2 {
                assert forall|at: int| !is_only_separator(kind@, at) by {
                    if is_only_separator(kind@, at) {
                        assert(first == at && second == at);
                    }
                }
            }
        }
        None
    }
}

/// Ensures that a kind string has the form `domain.tld/kind`: exactly two
/// segments with a `/` between them.
pub fn ensure_kind(kind: &str) -> (res: Result<(), ProcessError>)
    ensures
        res is Ok <==> has_two_segments(kind@),
        res matches Err(e) ==> e@ == ProcessErrorView::Validation(malformed_kind_message()),
{
    match kind_segment(kind) {
        Some(_) => Ok(()),
        None => Err(
            ProcessError::Validation("Kind must be of the form `domain.tld/kind`".to_owned()),
        ),
    }
}

/// `rand::rngs::ThreadRng`, the handle to the random number generator of a
/// thread. Nothing is known of what is inside it.
#[verifier::external_type_specification]
#[verifier::external_body]
pub struct ExThreadRng(rand::rngs::ThreadRng);

/// Calls `rand::thread_rng`, which hands out the generator of the calling
/// thread and seeds it from the operating system on the thread's first call.
/// Nothing is claimed of the generator. The call panics where the operating
/// system has no randomness to give.
#[verifier::external_body]
fn thread_generator() -> rand::rngs::ThreadRng {
    rand::thread_rng()
}

/// Calls `rand::Rng::sample` with the distribution
/// `rand::distributions::Alphanumeric`, which picks one byte out of a table
/// of the 62 ASCII letters and digits, and hands the byte on as the
/// character that it encodes. The claim is that the character is one of the
/// 62; which one comes is left open. The generator seeds itself anew from
/// time to time, and the call panics where that fails.
#[verifier::external_body]
fn sample_alphanumeric(rng: &mut rand::rngs::ThreadRng) -> (c: char)
    ensures
        is_alphanumeric(c),
{
    char::from(rand::Rng::sample(rng, rand::distributions::Alphanumeric))
}

/// Generates a disposable identifier of `length` random letters and digits.
/// It is no key of a workload and no secret. Which letters and digits come
/// is up to the generator of the calling thread.
pub fn generate_short_id(length: usize) -> (res: String)
    ensures
        res@.len() == length,
        forall|i: int| 0 <= i < res@.len() ==> is_alphanumeric(#[trigger] res@[i]),
{
    let mut rng = thread_generator();
    let mut short_id = String::new();
    let mut n: usize = 0;
    while n < length
        invariant
            n <= length,
            short_id@.len() == n,
            forall|i: int| 0 <= i < short_id@.len() ==> is_alphanumeric(#[trigger] short_id@[i]),
        decreases length - n,
    {
        let c = sample_alphanumeric(&mut rng);
        short_id.push(c);
        n += 1;
    }
    short_id
}

} // verus!
