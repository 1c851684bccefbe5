//! Rust source text, taken apart by syn.
//!
//! Tokens are handed out as text. It is proc-macro2 that lexes and writes them,
//! also where a compiler runs this as a macro and could do so itself: so the text
//! that comes out rests on the text that goes in alone.

use crate::codegen::trace_event::{shape_model, DeriveShape, RecordField, ShapeModel};
use proc_macro2::fallback;
use quote::ToTokens;
use syn::{Data, DataStruct, DeriveInput, Field, Fields, Ident, ItemFn, Path};
use vstd::prelude::*;

verus! {

/// What [`parse_record`] takes a text for: the name of a type and its shape, if
/// it is the declaration of one.
pub uninterp spec fn parsed_record(text: Seq<char>) -> Option<(Seq<char>, ShapeModel)>;

/// `syn::parse_str` reads a text as a `DeriveInput`, the declaration of a struct,
/// an enum or a union. What it takes for one, and the tokens of it, rest on the
/// text alone while `proc_macro2::fallback::force` holds; they are named
/// [`parsed_record`], and nothing else is claimed.
#[verifier::external_body]
pub(crate) fn parse_record(text: &str) -> (r: Option<(String, DeriveShape)>)
    ensures
        match r {
            Some(p) => parsed_record(text@) == Some((p.0@, shape_model(p.1))),
            None => parsed_record(text@) is None,
        },
{
    fallback::force();
    let put = |t: &dyn ToTokens| t.to_token_stream().to_string();
    let field = |f: &Field| RecordField { name: put(&f.ident), ty: put(&f.ty) };
    let shape = |d: Data| match d {
        Data::Struct(DataStruct { fields: Fields::Named(f), .. }) => {
            DeriveShape::NamedFields(f.named.iter().map(field).collect())
        },
        Data::Struct(_) => DeriveShape::OtherFields,
        Data::Enum(_) | Data::Union(_) => DeriveShape::NotAStruct,
    };
    let item = syn::parse_str::<DeriveInput>(text);
    let record = item.ok().map(|i| (i.ident.to_string(), shape(i.data)));
    fallback::unforce();
    record
}

/// A function, taken apart into the text of its pieces.
#[derive(Debug)]
pub struct ParsedFunction {
    /// The attributes.
    pub attrs: Vec<String>,
    /// The visibility.
    pub vis: String,
    pub is_async: bool,
    pub name: String,
    /// The return type with its arrow, or nothing.
    pub output: String,
    /// The statements of the body.
    pub stmts: Vec<String>,
}

/// The value of a [`ParsedFunction`].
pub struct FunctionModel {
    pub attrs: Seq<Seq<char>>,
    pub vis: Seq<char>,
    pub is_async: bool,
    pub name: Seq<char>,
    pub output: Seq<char>,
    pub stmts: Seq<Seq<char>>,
}

/// The characters of each text.
pub open spec fn texts(s: Seq<String>) -> Seq<Seq<char>> {
    s.map_values(|t: String| t@)
}

impl View for ParsedFunction {
    type V = FunctionModel;

    open spec fn view(&self) -> FunctionModel {
        FunctionModel {
            attrs: texts(self.attrs@),
            vis: self.vis@,
            is_async: self.is_async,
            name: self.name@,
            output: self.output@,
            stmts: texts(self.stmts@),
        }
    }
}

/// What [`parse_function`] takes a text for, if it is a function.
pub uninterp spec fn parsed_function(text: Seq<char>) -> Option<FunctionModel>;

/// `syn::parse_str` reads a text as an `ItemFn`, a function with its body. What
/// it takes for one, and the tokens of its pieces, rest on the text alone; they
/// are named [`parsed_function`], and nothing else is claimed.
#[verifier::external_body]
pub(crate) fn parse_function(text: &str) -> (r: Option<ParsedFunction>)
    ensures
        match r {
            Some(f) => parsed_function(text@) == Some(f@),
            None => parsed_function(text@) is None,
        },
{
    fallback::force();
    let put = |t: &dyn ToTokens| t.to_token_stream().to_string();
    let item = syn::parse_str::<ItemFn>(text);
    let function = item.ok().map(|f| ParsedFunction {
        attrs: f.attrs.iter().map(|a| put(a)).collect(),
        vis: put(&f.vis),
        is_async: f.sig.asyncness.is_some(),
        name: f.sig.ident.to_string(),
        output: put(&f.sig.output),
        stmts: f.block.stmts.iter().map(|s| put(s)).collect(),
    });
    fallback::unforce();
    function
}

/// What [`parse_path`] takes a text for, if it is a path.
pub uninterp spec fn parsed_path(text: Seq<char>) -> Option<Seq<char>>;

/// `syn::parse_str` reads a text as a `Path`. What it takes for one, and the
/// tokens of it, rest on the text alone; they are named [`parsed_path`], and
/// nothing else is claimed.
#[verifier::external_body]
pub(crate) fn parse_path(text: &str) -> (r: Option<String>)
    ensures
        match r {
            Some(p) => parsed_path(text@) == Some(p@),
            None => parsed_path(text@) is None,
        },
{
    fallback::force();
    let path = syn::parse_str::<Path>(text).ok().map(|p| p.to_token_stream().to_string());
    fallback::unforce();
    path
}

/// Whether [`is_ident`] takes a text for an identifier.
pub uninterp spec fn reads_as_ident(text: Seq<char>) -> bool;

/// `syn::parse_str` reads a text as an `Ident`, which no keyword is. Whether it
/// takes a text for one rests on the text alone; that is named
/// [`reads_as_ident`], and nothing else is claimed.
#[verifier::external_body]
pub(crate) fn is_ident(text: &str) -> (b: bool)
    ensures
        b == reads_as_ident(text@),
{
    fallback::force();
    let ident = syn::parse_str::<Ident>(text).is_ok();
    fallback::unforce();
    ident
}

/// The value of a function has each of its pieces under the same name, and the
/// pieces of a kind in order.
pub proof fn lemma_value_of_a_function(f: ParsedFunction, i: int)
    ensures
        f@.vis == f.vis@,
        f@.is_async == f.is_async,
        f@.name == f.name@,
        f@.output == f.output@,
        f@.attrs.len() == f.attrs@.len(),
        0 <= i < f.attrs@.len() ==> f@.attrs[i] == f.attrs@[i]@,
        f@.stmts.len() == f.stmts@.len(),
        0 <= i < f.stmts@.len() ==> f@.stmts[i] == f.stmts@[i]@,
{
}

} // verus!
