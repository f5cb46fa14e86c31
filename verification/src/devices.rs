use vstd::prelude::*;

verus! {

/// `s` ends with `suffix`.
pub open spec fn ends_with(s: Seq<char>, suffix: Seq<char>) -> bool {
    suffix.len() <= s.len() && s.subrange(s.len() - suffix.len(), s.len() as int) == suffix
}

/// `str::ends_with` with a string pattern: whether `suffix` is a suffix of
/// `s` (UTF-8 byte suffixes that are whole strings are character suffixes).
#[verifier::external_body]
fn str_ends_with(s: &str, suffix: &str) -> (r: bool)
    ensures
        r == ends_with(s@, suffix@),
{
    s.ends_with(suffix)
}

/// The label under which an input device is listed.
pub open spec fn input_label(name: Seq<char>) -> Seq<char> {
    "Input: "@ + name
}

/// The label under which an output device is listed.
pub open spec fn output_label(name: Seq<char>) -> Seq<char> {
    "Output: "@ + name
}

/// Whether the device named `device` is the one asked for as `requested`:
/// the same name, or a request that ends with the device's name (as its
/// listed label does).
pub open spec fn device_matches(requested: Seq<char>, device: Seq<char>) -> bool {
    device == requested || ends_with(requested, device)
}

pub fn input_device_label(name: &str) -> (label: String)
    ensures
        label@ == input_label(name@),
{
    let mut label = String::from_str("Input: ");
    label.append(name);
    label
}

pub fn output_device_label(name: &str) -> (label: String)
    ensures
        label@ == output_label(name@),
{
    let mut label = String::from_str("Output: ");
    label.append(name);
    label
}

/// See [`device_matches`].
pub fn device_name_matches(requested: &str, device: &str) -> (r: bool)
    ensures
        r == device_matches(requested@, device@),
{
    let d = String::from_str(device);
    let q = String::from_str(requested);
    d == q || str_ends_with(requested, device)
}

/// A device is found again by the label under which it is listed.
pub proof fn lemma_label_finds_device(name: Seq<char>)
    ensures
        device_matches(input_label(name), name),
        device_matches(output_label(name), name),
{
    let i = input_label(name);
    let o = output_label(name);
    assert(i.subrange(i.len() - name.len(), i.len() as int) =~= name);
    assert(o.subrange(o.len() - name.len(), o.len() as int) =~= name);
}

} // verus!
