use vstd::prelude::*;

verus! {

/// The fixed prefix of a marker comment: a top-level element whose nearest
/// preceding sibling is a comment beginning with this text is managed
/// (generated) content.
pub open spec fn spec_marker_prefix() -> Seq<char> {
    "typeholder"@
}

/// The marker prefix as a string slice.
pub fn marker_prefix() -> (r: &'static str)
    ensures
        r@ == spec_marker_prefix(),
{
    "typeholder"
}

/// The built-in default document: a minimal skeleton with three empty alias
/// stubs, each already carrying the marker comment.
pub open spec fn spec_default_document() -> Seq<char> {
    "<?xml version=\"1.0\"?><fontconfig><!--typeholder--><alias><family>sans-serif</family><prefer/></alias><!--typeholder--><alias><family>serif</family><prefer/></alias><!--typeholder--><alias><family>monospace</family><prefer/></alias></fontconfig>"@
}

/// The built-in default document as a string slice.
pub fn default_document() -> (r: &'static str)
    ensures
        r@ == spec_default_document(),
{
    "<?xml version=\"1.0\"?><fontconfig><!--typeholder--><alias><family>sans-serif</family><prefer/></alias><!--typeholder--><alias><family>serif</family><prefer/></alias><!--typeholder--><alias><family>monospace</family><prefer/></alias></fontconfig>"
}

} // verus!
