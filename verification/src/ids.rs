//! Ids that nothing else has.
use vstd::prelude::*;

verus! {

/// The character is a digit of a hexadecimal number, in lower case.
pub open spec fn is_hex_digit(c: char) -> bool {
    '0' <= c <= '9' || 'a' <= c <= 'f'
}

/// The text is a random UUID: five groups of hexadecimal digits with a hyphen
/// between each two, which tell its version and its variant.
pub open spec fn is_random_id(text: Seq<char>) -> bool {
    &&& text.len() == 36
    &&& forall|i: int|
        0 <= i < 36 ==> if i == 8 || i == 13 || i == 18 || i == 23 {
            #[trigger] text[i] == '-'
        } else {
            is_hex_digit(text[i])
        }
    &&& text[14] == '4'
    &&& text[19] == '8' || text[19] == '9' || text[19] == 'a' || text[19] == 'b'
}

/// Every text is a random UUID.
pub open spec fn are_random_ids(texts: Seq<Seq<char>>) -> bool {
    forall|i: int| 0 <= i < texts.len() ==> is_random_id(#[trigger] texts[i])
}

/// A new id, from `uuid::Uuid::new_v4`. It is random: all that is claimed is
/// the form that every such id has. It panics where the system has no source
/// of random numbers.
#[verifier::external_body]
pub(crate) fn new_id() -> (r: String)
    ensures
        is_random_id(r@),
{
    uuid::Uuid::new_v4().to_string()
}

/// As many new ids as are asked for.
pub(crate) fn new_ids(n: usize) -> (r: Vec<String>)
    ensures
        r.len() == n,
        forall|i: int| 0 <= i < n ==> is_random_id(#[trigger] r.deep_view()[i]),
{
    let mut out: Vec<String> = Vec::new();
    while out.len() < n
        invariant
            out.len() <= n,
            forall|i: int| 0 <= i < out.len() ==> is_random_id(#[trigger] out.deep_view()[i]),
        decreases n - out.len(),
    {
        let id: String = new_id();
        let ghost before = out.deep_view();
        let ghost text = id@;
        out.push(id);
        assert(out.deep_view() =~= before.push(text));
    }
    out
}

/// The id of a review that is about to run.
pub fn new_gate_run_id() -> (r: String)
    ensures
        is_random_id(r@),
{
    new_id()
}

} // verus!
