//! The passes that turn language data into generated source.
pub mod codegen_ast;
pub mod codegen_parsers;
pub mod codegen_tosource;
pub mod build_ast;
pub mod build_parsers;
pub mod get_tokens;
pub mod codegen_syntax;

use vstd::prelude::*;
use crate::lang_data::data::LangData;
use crate::text::owned;

verus! {

/// The module file of the generated code: it declares the generated
/// modules.
pub open spec fn mod_source() -> Seq<char> {
    "pub mod ast;\npub mod parsers;\npub mod visitor;\npub mod to_source;\n\n"@
}

/// The source of the module file that ties the generated files together.
pub fn gen_mod(_data: &LangData) -> (r: String)
    ensures
        r@ == mod_source(),
{
    owned("pub mod ast;\npub mod parsers;\npub mod visitor;\npub mod to_source;\n\n")
}

} // verus!
