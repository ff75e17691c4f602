use vstd::prelude::*;

verus! {

#[verifier::external_type_specification]
#[verifier::external_body]
pub struct ExBuilder(string_builder::Builder);

/// The text a builder has accumulated, as the characters its UTF-8 byte
/// buffer decodes to.
pub uninterp spec fn builder_view(b: string_builder::Builder) -> Seq<char>;

/// Whether a builder's byte buffer is valid UTF-8. Every builder grown only
/// by appending string slices is.
pub uninterp spec fn builder_wf(b: string_builder::Builder) -> bool;

/// Relies on string_builder::Builder::default, which starts a builder over an
/// empty byte buffer.
#[verifier::external_body]
pub(crate) fn builder_new() -> (b: string_builder::Builder)
    ensures
        builder_view(b) == Seq::<char>::empty(),
        builder_wf(b),
{
    string_builder::Builder::default()
}

/// Relies on string_builder::Builder::append for &str, which appends exactly
/// the slice's UTF-8 bytes to the buffer.
#[verifier::external_body]
pub(crate) fn builder_append(b: &mut string_builder::Builder, s: &str)
    ensures
        builder_wf(*old(b)) ==> builder_wf(*final(b)) && builder_view(*final(b)) == builder_view(
            *old(b),
        ) + s@,
{
    b.append(s)
}

/// Relies on string_builder::Builder::string, which returns the accumulated
/// bytes as a String; on a valid UTF-8 buffer it cannot fail.
#[verifier::external_body]
pub(crate) fn builder_string(b: string_builder::Builder) -> (r: String)
    requires
        builder_wf(b),
    ensures
        r@ == builder_view(b),
{
    b.string().unwrap()
}

} // verus!
