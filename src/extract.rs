//! Descriptors from declarations: a program's instruction functions or enum
//! variants, as plain values, turned into `InterfaceInstruction`s and
//! validated.
use vstd::prelude::*;

use crate::discriminator::{is_valid_namespace, valid_namespace};
use crate::error::{outcome, InterfaceErrorView, SplInterfaceError};
use crate::evaluate::{evaluate_interface_instructions, verdict};
use crate::instructions::builtin_registry;
use crate::interface::{InstructionView, InterfaceInstruction, RequiredArg, RequiredArgType};
use crate::registry::instruction_views;

verus! {

/// A type as written in a declaration: a plain path without generic
/// arguments (`u64`, `solana_program::pubkey::Pubkey`), or anything else.
#[derive(Debug, Clone)]
pub enum DeclaredType {
    Path { leading_colon: bool, segments: Vec<String> },
    Other,
}

/// The names of the segments of a path.
pub open spec fn segment_names(segments: Seq<String>) -> Seq<Seq<char>> {
    segments.map_values(|s: String| s@)
}

/// The argument kind a declared type stands for, if it is one of the
/// supported primitive types written as such.
pub open spec fn arg_type_of(t: DeclaredType) -> Option<RequiredArgType> {
    match t {
        DeclaredType::Path { leading_colon, segments } => {
            let names = segment_names(segments@);
            if leading_colon {
                None
            } else if names == seq!["u8"@] {
                Some(RequiredArgType::U8)
            } else if names == seq!["u16"@] {
                Some(RequiredArgType::U16)
            } else if names == seq!["u32"@] {
                Some(RequiredArgType::U32)
            } else if names == seq!["u64"@] {
                Some(RequiredArgType::U64)
            } else if names == seq!["u128"@] {
                Some(RequiredArgType::U128)
            } else if names == seq!["String"@] {
                Some(RequiredArgType::String)
            } else if names == seq!["solana_program"@, "pubkey"@, "Pubkey"@] {
                Some(RequiredArgType::Pubkey)
            } else {
                None
            }
        },
        DeclaredType::Other => None,
    }
}

fn text_is(s: &String, lit: &str) -> (r: bool)
    ensures
        r == (s@ == lit@),
{
    let expected = lit.to_owned();
    *s == expected
}

fn path_is_one(segments: &Vec<String>, lit: &str) -> (r: bool)
    ensures
        r == (segment_names(segments@) == seq![lit@]),
{
    if segments.len() != 1 {
        assert(segment_names(segments@).len() != 1);
        return false;
    }
    let r = text_is(&segments[0], lit);
    assert(r ==> segment_names(segments@) =~= seq![lit@]);
    assert(segment_names(segments@) == seq![lit@] ==> segment_names(segments@)[0] == lit@);
    r
}

fn path_is_three(segments: &Vec<String>, a: &str, b: &str, c: &str) -> (r: bool)
    ensures
        r == (segment_names(segments@) == seq![a@, b@, c@]),
{
    if segments.len() != 3 {
        assert(segment_names(segments@).len() != 3);
        return false;
    }
    let r = text_is(&segments[0], a) && text_is(&segments[1], b) && text_is(&segments[2], c);
    assert(r ==> segment_names(segments@) =~= seq![a@, b@, c@]);
    assert(segment_names(segments@) == seq![a@, b@, c@] ==> {
        &&& segment_names(segments@)[0] == a@
        &&& segment_names(segments@)[1] == b@
        &&& segment_names(segments@)[2] == c@
    });
    r
}

impl RequiredArgType {
    /// The argument kind of a declared type, or `None` for a type outside
    /// the supported primitives.
    pub fn from_declared_type(ty: &DeclaredType) -> (r: Option<RequiredArgType>)
        ensures
            r == arg_type_of(*ty),
    {
        match ty {
            DeclaredType::Path { leading_colon, segments } => {
                if *leading_colon {
                    None
                } else if path_is_one(segments, "u8") {
                    Some(RequiredArgType::U8)
                } else if path_is_one(segments, "u16") {
                    Some(RequiredArgType::U16)
                } else if path_is_one(segments, "u32") {
                    Some(RequiredArgType::U32)
                } else if path_is_one(segments, "u64") {
                    Some(RequiredArgType::U64)
                } else if path_is_one(segments, "u128") {
                    Some(RequiredArgType::U128)
                } else if path_is_one(segments, "String") {
                    Some(RequiredArgType::String)
                } else if path_is_three(segments, "solana_program", "pubkey", "Pubkey") {
                    Some(RequiredArgType::Pubkey)
                } else {
                    None
                }
            },
            DeclaredType::Other => None,
        }
    }

    /// The type that a declaration writes for this argument kind.
    pub fn declared_type(&self) -> (r: DeclaredType)
        ensures
            arg_type_of(r) == Some(*self),
    {
        let mut segments: Vec<String> = Vec::new();
        match self {
            RequiredArgType::U8 => segments.push("u8".to_owned()),
            RequiredArgType::U16 => segments.push("u16".to_owned()),
            RequiredArgType::U32 => segments.push("u32".to_owned()),
            RequiredArgType::U64 => segments.push("u64".to_owned()),
            RequiredArgType::U128 => segments.push("u128".to_owned()),
            RequiredArgType::String => segments.push("String".to_owned()),
            RequiredArgType::Pubkey => {
                segments.push("solana_program".to_owned());
                segments.push("pubkey".to_owned());
                segments.push("Pubkey".to_owned());
            },
        }
        proof {
            reveal_strlit("u8");
            reveal_strlit("u16");
            reveal_strlit("u32");
            reveal_strlit("u64");
            reveal_strlit("u128");
            reveal_strlit("String");
            reveal_strlit("solana_program");
            reveal_strlit("pubkey");
            reveal_strlit("Pubkey");
            // the single-segment names differ pairwise, so no earlier branch
            // of `arg_type_of` takes the path meant for a later one
            let u8n = "u8"@;
            let u16n = "u16"@;
            let u32n = "u32"@;
            let u64n = "u64"@;
            assert(u16n[1] != u32n[1] && u16n[1] != u64n[1] && u32n[1] != u64n[1]);
            assert(u8n != u16n && u8n != u32n && u8n != u64n && u16n != u32n && u16n != u64n && u32n != u64n);
            let names = seq![u8n, u16n, u32n, u64n, "u128"@, "String"@];
            assert forall|a: int, b: int| 0 <= a < b < 6 implies seq![names[a]] != seq![names[b]] by {
                assert(seq![names[a]][0] == names[a]);
                assert(seq![names[b]][0] == names[b]);
            }
            assert(segment_names(segments@) =~= match self {
                RequiredArgType::U8 => seq!["u8"@],
                RequiredArgType::U16 => seq!["u16"@],
                RequiredArgType::U32 => seq!["u32"@],
                RequiredArgType::U64 => seq!["u64"@],
                RequiredArgType::U128 => seq!["u128"@],
                RequiredArgType::String => seq!["String"@],
                RequiredArgType::Pubkey => seq!["solana_program"@, "pubkey"@, "Pubkey"@],
            });
        }
        DeclaredType::Path { leading_colon: false, segments }
    }
}

/// One input of a function declaration.
#[derive(Debug, Clone)]
pub enum FnInput {
    /// The `self` receiver.
    Receiver,
    /// A typed argument; `ident` is its name when its pattern is a plain
    /// identifier.
    Typed { ident: Option<String>, ty: DeclaredType },
}

/// A program's instruction function: the path of its `interface`
/// annotation, if it has one, and its inputs.
#[derive(Debug, Clone)]
pub struct FunctionDecl {
    pub interface: Option<Vec<String>>,
    pub inputs: Vec<FnInput>,
}

/// A field of an enum variant; `ident` is its name when the field is named.
#[derive(Debug, Clone)]
pub struct FieldDecl {
    pub ident: Option<String>,
    pub ty: DeclaredType,
}

/// A variant of a program's instruction enum: the path of its `interface`
/// annotation, if it has one, and its fields.
#[derive(Debug, Clone)]
pub struct VariantDecl {
    pub interface: Option<Vec<String>>,
    pub fields: Vec<FieldDecl>,
}

/// The required arguments read from a function's inputs: each typed input
/// with a plain identifier, in order; `None` when one of their types is
/// outside the supported kinds.
pub open spec fn fn_args(inputs: Seq<FnInput>) -> Option<Seq<(Seq<char>, RequiredArgType)>>
    decreases inputs.len(),
{
    if inputs.len() == 0 {
        Some(Seq::empty())
    } else {
        match fn_args(inputs.drop_last()) {
            None => None,
            Some(init) => match inputs.last() {
                FnInput::Typed { ident: Some(name), ty } => match arg_type_of(ty) {
                    Some(kind) => Some(init.push((name@, kind))),
                    None => None,
                },
                _ => Some(init),
            },
        }
    }
}

/// The required arguments read from a variant's fields: each named field,
/// in order; `None` when one of their types is outside the supported kinds.
pub open spec fn field_args(fields: Seq<FieldDecl>) -> Option<Seq<(Seq<char>, RequiredArgType)>>
    decreases fields.len(),
{
    if fields.len() == 0 {
        Some(Seq::empty())
    } else {
        match field_args(fields.drop_last()) {
            None => None,
            Some(init) => match fields.last().ident {
                Some(name) => match arg_type_of(fields.last().ty) {
                    Some(kind) => Some(init.push((name@, kind))),
                    None => None,
                },
                None => Some(init),
            },
        }
    }
}

/// The descriptor read from a declaration's arguments; an argument type
/// outside the supported kinds fails the extraction with `ParseError`.
pub open spec fn descriptor_of(
    interface_namespace: Seq<char>,
    instruction_namespace: Seq<char>,
    args: Option<Seq<(Seq<char>, RequiredArgType)>>,
) -> Result<InstructionView, InterfaceErrorView> {
    match args {
        Some(required_args) => Ok(InstructionView { interface_namespace, instruction_namespace, required_args }),
        None => Err(InterfaceErrorView::ParseError),
    }
}

/// The value of a descriptor built from a declaration.
pub open spec fn descriptor_outcome(r: Result<InterfaceInstruction, SplInterfaceError>) -> Result<
    InstructionView,
    InterfaceErrorView,
> {
    match r {
        Ok(ix) => Ok(ix@),
        Err(e) => Err(e@),
    }
}

fn push_arg(
    args: &mut Vec<RequiredArg>,
    name: &String,
    ty: &DeclaredType,
) -> (r: bool)
    ensures
        r == arg_type_of(*ty).is_some(),
        r ==> final(args)@.map_values(|a: RequiredArg| (a.0@, a.1)) == old(args)@.map_values(
            |a: RequiredArg| (a.0@, a.1),
        ).push((name@, arg_type_of(*ty).unwrap())),
{
    match RequiredArgType::from_declared_type(ty) {
        Some(kind) => {
            let ghost before = args@;
            args.push((name.clone(), kind));
            assert(args@.map_values(|a: RequiredArg| (a.0@, a.1)) =~= before.map_values(
                |a: RequiredArg| (a.0@, a.1),
            ).push((name@, kind)));
            true
        },
        None => false,
    }
}

impl InterfaceInstruction {
    /// Converts an interface namespace, an instruction namespace and a
    /// function declaration into a descriptor for evaluation.
    pub fn from_item_fn(
        interface_namespace: &String,
        instruction_namespace: &String,
        function: &FunctionDecl,
    ) -> (r: Result<InterfaceInstruction, SplInterfaceError>)
        ensures
            descriptor_outcome(r) == descriptor_of(
                interface_namespace@,
                instruction_namespace@,
                fn_args(function.inputs@),
            ),
    {
        let mut required_args: Vec<RequiredArg> = Vec::new();
        let mut i: usize = 0;
        while i < function.inputs.len()
            invariant
                i <= function.inputs@.len(),
                fn_args(function.inputs@.take(i as int)) == Some(
                    required_args@.map_values(|a: RequiredArg| (a.0@, a.1)),
                ),
            decreases function.inputs@.len() - i,
        {
            assert(function.inputs@.take(i as int + 1).drop_last() =~= function.inputs@.take(i as int));
            match &function.inputs[i] {
                FnInput::Typed { ident: Some(name), ty } => {
                    if !push_arg(&mut required_args, name, ty) {
                        assert(fn_args(function.inputs@.take(i as int + 1)).is_none());
                        proof {
                            lemma_fn_args_none(function.inputs@, i as int + 1);
                        }
                        return Err(SplInterfaceError::ParseError);
                    }
                },
                _ => {},
            }
            i += 1;
        }
        assert(function.inputs@.take(i as int) =~= function.inputs@);
        Ok(
            InterfaceInstruction {
                interface_namespace: interface_namespace.clone(),
                instruction_namespace: instruction_namespace.clone(),
                required_args,
            },
        )
    }

    /// Converts an interface namespace, an instruction namespace and an enum
    /// variant into a descriptor for evaluation.
    pub fn from_variant(
        interface_namespace: &String,
        instruction_namespace: &String,
        variant: &VariantDecl,
    ) -> (r: Result<InterfaceInstruction, SplInterfaceError>)
        ensures
            descriptor_outcome(r) == descriptor_of(
                interface_namespace@,
                instruction_namespace@,
                field_args(variant.fields@),
            ),
    {
        let mut required_args: Vec<RequiredArg> = Vec::new();
        let mut i: usize = 0;
        while i < variant.fields.len()
            invariant
                i <= variant.fields@.len(),
                field_args(variant.fields@.take(i as int)) == Some(
                    required_args@.map_values(|a: RequiredArg| (a.0@, a.1)),
                ),
            decreases variant.fields@.len() - i,
        {
            assert(variant.fields@.take(i as int + 1).drop_last() =~= variant.fields@.take(i as int));
            let field = &variant.fields[i];
            match &field.ident {
                Some(name) => {
                    if !push_arg(&mut required_args, name, &field.ty) {
                        assert(field_args(variant.fields@.take(i as int + 1)).is_none());
                        proof {
                            lemma_field_args_none(variant.fields@, i as int + 1);
                        }
                        return Err(SplInterfaceError::ParseError);
                    }
                },
                None => {},
            }
            i += 1;
        }
        assert(variant.fields@.take(i as int) =~= variant.fields@);
        Ok(
            InterfaceInstruction {
                interface_namespace: interface_namespace.clone(),
                instruction_namespace: instruction_namespace.clone(),
                required_args,
            },
        )
    }
}

/// Once an unsupported type is met, the arguments of every longer prefix
/// are unsupported too.
proof fn lemma_fn_args_none(inputs: Seq<FnInput>, n: int)
    requires
        0 <= n <= inputs.len(),
        fn_args(inputs.take(n)).is_none(),
    ensures
        fn_args(inputs).is_none(),
    decreases inputs.len() - n,
{
    if n < inputs.len() {
        assert(inputs.take(n + 1).drop_last() =~= inputs.take(n));
        lemma_fn_args_none(inputs, n + 1);
    } else {
        assert(inputs.take(n) =~= inputs);
    }
}

proof fn lemma_field_args_none(fields: Seq<FieldDecl>, n: int)
    requires
        0 <= n <= fields.len(),
        field_args(fields.take(n)).is_none(),
    ensures
        field_args(fields).is_none(),
    decreases fields.len() - n,
{
    if n < fields.len() {
        assert(fields.take(n + 1).drop_last() =~= fields.take(n));
        lemma_field_args_none(fields, n + 1);
    } else {
        assert(fields.take(n) =~= fields);
    }
}

/// The (interface, instruction) namespaces an annotation path names: it
/// must have exactly two segments, each a valid namespace.
pub open spec fn annotation_namespaces(path: Seq<String>) -> Option<(Seq<char>, Seq<char>)> {
    if path.len() == 2 && valid_namespace(path[0]@) && valid_namespace(path[1]@) {
        Some((path[0]@, path[1]@))
    } else {
        None
    }
}

/// Extracts the interface namespace and instruction namespace from the path
/// of an `interface` annotation.
pub fn extract_interface_from_attribute(path: &Vec<String>) -> (r: Result<(String, String), SplInterfaceError>)
    ensures
        match annotation_namespaces(path@) {
            Some(names) => r matches Ok(p) && p.0@ == names.0 && p.1@ == names.1,
            None => r matches Err(SplInterfaceError::ParseError),
        },
{
    if path.len() == 2 && is_valid_namespace(&path[0]) && is_valid_namespace(&path[1]) {
        Ok((path[0].clone(), path[1].clone()))
    } else {
        Err(SplInterfaceError::ParseError)
    }
}

/// The descriptor a function contributes: nothing without an `interface`
/// annotation; else the descriptor read from it, or why it cannot be read.
pub open spec fn function_descriptor(d: FunctionDecl) -> Option<Result<InstructionView, InterfaceErrorView>> {
    match d.interface {
        None => None,
        Some(path) => Some(
            match annotation_namespaces(path@) {
                None => Err(InterfaceErrorView::ParseError),
                Some(names) => descriptor_of(names.0, names.1, fn_args(d.inputs@)),
            },
        ),
    }
}

/// The descriptors of the annotated functions, in order, or the error of the
/// first one that cannot be read.
pub open spec fn declared_from_functions(ds: Seq<FunctionDecl>) -> Result<Seq<InstructionView>, InterfaceErrorView>
    decreases ds.len(),
{
    if ds.len() == 0 {
        Ok(Seq::empty())
    } else {
        match declared_from_functions(ds.drop_last()) {
            Err(e) => Err(e),
            Ok(init) => match function_descriptor(ds.last()) {
                None => Ok(init),
                Some(Err(e)) => Err(e),
                Some(Ok(d)) => Ok(init.push(d)),
            },
        }
    }
}

/// The result of validating functions against the built-in registry.
pub open spec fn functions_outcome(ds: Seq<FunctionDecl>) -> Result<(), InterfaceErrorView> {
    match declared_from_functions(ds) {
        Err(e) => Err(e),
        Ok(decl) => verdict(builtin_registry(), decl),
    }
}

/// A function without an `interface` annotation plays no part in
/// validation: inserting one anywhere leaves the result unchanged.
pub proof fn lemma_custom_functions_ignored(ds: Seq<FunctionDecl>, p: int, custom: FunctionDecl)
    requires
        0 <= p <= ds.len(),
        custom.interface is None,
    ensures
        functions_outcome(ds.insert(p, custom)) == functions_outcome(ds),
{
    lemma_declared_from_functions_insert(ds, p, custom);
}

proof fn lemma_declared_from_functions_insert(ds: Seq<FunctionDecl>, p: int, custom: FunctionDecl)
    requires
        0 <= p <= ds.len(),
        custom.interface is None,
    ensures
        declared_from_functions(ds.insert(p, custom)) == declared_from_functions(ds),
    decreases ds.len(),
{
    let longer = ds.insert(p, custom);
    if p == ds.len() {
        assert(longer.drop_last() =~= ds);
    } else {
        assert(longer.drop_last() =~= ds.drop_last().insert(p, custom));
        assert(longer.last() == ds.last());
        lemma_declared_from_functions_insert(ds.drop_last(), p, custom);
    }
}

/// Validates the interface instructions of a collection of functions.
pub fn process_functions(functions: &Vec<FunctionDecl>) -> (r: Result<(), SplInterfaceError>)
    ensures
        outcome(r) == functions_outcome(functions@),
{
    let mut declared: Vec<InterfaceInstruction> = Vec::new();
    let mut i: usize = 0;
    assert(functions@.take(0) =~= Seq::<FunctionDecl>::empty());
    assert(instruction_views(declared@) =~= Seq::<InstructionView>::empty());
    while i < functions.len()
        invariant
            i <= functions@.len(),
            declared_from_functions(functions@.take(i as int)) == Ok::<Seq<InstructionView>, InterfaceErrorView>(
                instruction_views(declared@),
            ),
        decreases functions@.len() - i,
    {
        let ghost before = declared@;
        assert(functions@.take(i as int + 1).drop_last() =~= functions@.take(i as int));
        let d = &functions[i];
        match &d.interface {
            Some(path) => {
                let (interface_namespace, instruction_namespace) = match extract_interface_from_attribute(path) {
                    Ok(names) => names,
                    Err(e) => {
                        proof {
                            lemma_function_error_persists(functions@, i as int + 1);
                        }
                        return Err(e);
                    },
                };
                match InterfaceInstruction::from_item_fn(&interface_namespace, &instruction_namespace, d) {
                    Ok(ix) => {
                        declared.push(ix);
                        assert(instruction_views(declared@) =~= instruction_views(before).push(ix@));
                    },
                    Err(e) => {
                        proof {
                            lemma_function_error_persists(functions@, i as int + 1);
                        }
                        return Err(e);
                    },
                }
            },
            None => {},
        }
        i += 1;
    }
    assert(functions@.take(i as int) =~= functions@);
    evaluate_interface_instructions(declared)
}

/// An error in a prefix is the error of the whole sequence.
proof fn lemma_function_error_persists(ds: Seq<FunctionDecl>, n: int)
    requires
        0 <= n <= ds.len(),
        declared_from_functions(ds.take(n)) is Err,
    ensures
        declared_from_functions(ds) == declared_from_functions(ds.take(n)),
    decreases ds.len() - n,
{
    if n < ds.len() {
        assert(ds.take(n + 1).drop_last() =~= ds.take(n));
        lemma_function_error_persists(ds, n + 1);
    } else {
        assert(ds.take(n) =~= ds);
    }
}

/// The descriptor a variant contributes: nothing without an `interface`
/// annotation; else the descriptor read from it, or why it cannot be read.
pub open spec fn variant_descriptor(d: VariantDecl) -> Option<Result<InstructionView, InterfaceErrorView>> {
    match d.interface {
        None => None,
        Some(path) => Some(
            match annotation_namespaces(path@) {
                None => Err(InterfaceErrorView::ParseError),
                Some(names) => descriptor_of(names.0, names.1, field_args(d.fields@)),
            },
        ),
    }
}

/// The descriptors of the annotated variants, in order, or the error of the
/// first one that cannot be read.
pub open spec fn declared_from_variants(ds: Seq<VariantDecl>) -> Result<Seq<InstructionView>, InterfaceErrorView>
    decreases ds.len(),
{
    if ds.len() == 0 {
        Ok(Seq::empty())
    } else {
        match declared_from_variants(ds.drop_last()) {
            Err(e) => Err(e),
            Ok(init) => match variant_descriptor(ds.last()) {
                None => Ok(init),
                Some(Err(e)) => Err(e),
                Some(Ok(d)) => Ok(init.push(d)),
            },
        }
    }
}

/// The result of validating variants against the built-in registry.
pub open spec fn variants_outcome(ds: Seq<VariantDecl>) -> Result<(), InterfaceErrorView> {
    match declared_from_variants(ds) {
        Err(e) => Err(e),
        Ok(decl) => verdict(builtin_registry(), decl),
    }
}

/// A variant without an `interface` annotation plays no part in
/// validation: inserting one anywhere leaves the result unchanged.
pub proof fn lemma_custom_variants_ignored(ds: Seq<VariantDecl>, p: int, custom: VariantDecl)
    requires
        0 <= p <= ds.len(),
        custom.interface is None,
    ensures
        variants_outcome(ds.insert(p, custom)) == variants_outcome(ds),
{
    lemma_declared_from_variants_insert(ds, p, custom);
}

proof fn lemma_declared_from_variants_insert(ds: Seq<VariantDecl>, p: int, custom: VariantDecl)
    requires
        0 <= p <= ds.len(),
        custom.interface is None,
    ensures
        declared_from_variants(ds.insert(p, custom)) == declared_from_variants(ds),
    decreases ds.len(),
{
    let longer = ds.insert(p, custom);
    if p == ds.len() {
        assert(longer.drop_last() =~= ds);
    } else {
        assert(longer.drop_last() =~= ds.drop_last().insert(p, custom));
        assert(longer.last() == ds.last());
        lemma_declared_from_variants_insert(ds.drop_last(), p, custom);
    }
}

/// Validates the interface instructions of a collection of variants.
pub fn process_enum(variants: &Vec<VariantDecl>) -> (r: Result<(), SplInterfaceError>)
    ensures
        outcome(r) == variants_outcome(variants@),
{
    let mut declared: Vec<InterfaceInstruction> = Vec::new();
    let mut i: usize = 0;
    assert(variants@.take(0) =~= Seq::<VariantDecl>::empty());
    assert(instruction_views(declared@) =~= Seq::<InstructionView>::empty());
    while i < variants.len()
        invariant
            i <= variants@.len(),
            declared_from_variants(variants@.take(i as int)) == Ok::<Seq<InstructionView>, InterfaceErrorView>(
                instruction_views(declared@),
            ),
        decreases variants@.len() - i,
    {
        let ghost before = declared@;
        assert(variants@.take(i as int + 1).drop_last() =~= variants@.take(i as int));
        let d = &variants[i];
        match &d.interface {
            Some(path) => {
                let (interface_namespace, instruction_namespace) = match extract_interface_from_attribute(path) {
                    Ok(names) => names,
                    Err(e) => {
                        proof {
                            lemma_variant_error_persists(variants@, i as int + 1);
                        }
                        return Err(e);
                    },
                };
                match InterfaceInstruction::from_variant(&interface_namespace, &instruction_namespace, d) {
                    Ok(ix) => {
                        declared.push(ix);
                        assert(instruction_views(declared@) =~= instruction_views(before).push(ix@));
                    },
                    Err(e) => {
                        proof {
                            lemma_variant_error_persists(variants@, i as int + 1);
                        }
                        return Err(e);
                    },
                }
            },
            None => {},
        }
        i += 1;
    }
    assert(variants@.take(i as int) =~= variants@);
    evaluate_interface_instructions(declared)
}

/// An error in a prefix is the error of the whole sequence.
proof fn lemma_variant_error_persists(ds: Seq<VariantDecl>, n: int)
    requires
        0 <= n <= ds.len(),
        declared_from_variants(ds.take(n)) is Err,
    ensures
        declared_from_variants(ds) == declared_from_variants(ds.take(n)),
    decreases ds.len() - n,
{
    if n < ds.len() {
        assert(ds.take(n + 1).drop_last() =~= ds.take(n));
        lemma_variant_error_persists(ds, n + 1);
    } else {
        assert(ds.take(n) =~= ds);
    }
}

/// The descriptor an annotated function yields, when it can be read.
pub open spec fn extracted_function(d: FunctionDecl) -> Option<InstructionView> {
    match function_descriptor(d) {
        Some(Ok(ix)) => Some(ix),
        _ => None,
    }
}

/// The function carries an `interface` annotation but cannot be read into a
/// descriptor.
pub open spec fn unreadable_function(d: FunctionDecl) -> bool {
    function_descriptor(d) matches Some(Err(_))
}

/// The descriptors of the annotated functions, in order.
pub open spec fn function_descriptors(ds: Seq<FunctionDecl>) -> Seq<InstructionView> {
    ds.filter_map(|d: FunctionDecl| extracted_function(d))
}

/// Extraction and validation of functions, stated directly: a single
/// unreadable annotated function anywhere gives `ParseError`; otherwise the
/// result is the evaluation of the descriptors of the annotated functions,
/// in order, and the functions without an annotation play no part.
pub proof fn lemma_functions_outcome(ds: Seq<FunctionDecl>)
    ensures
        declared_from_functions(ds) == if exists|i: int| 0 <= i < ds.len() && unreadable_function(#[trigger] ds[i]) {
            Err(InterfaceErrorView::ParseError)
        } else {
            Ok(function_descriptors(ds))
        },
        functions_outcome(ds) == if exists|i: int| 0 <= i < ds.len() && unreadable_function(#[trigger] ds[i]) {
            Err(InterfaceErrorView::ParseError)
        } else {
            verdict(builtin_registry(), function_descriptors(ds))
        },
    decreases ds.len(),
{
    if ds.len() > 0 {
        let init = ds.drop_last();
        lemma_functions_outcome(init);
        assert forall|i: int| 0 <= i < init.len() implies init[i] == ds[i] by {}
        if exists|i: int| 0 <= i < init.len() && unreadable_function(#[trigger] init[i]) {
            let i = choose|i: int| 0 <= i < init.len() && unreadable_function(#[trigger] init[i]);
            assert(unreadable_function(ds[i]));
            assert(declared_from_functions(ds) == Err::<Seq<InstructionView>, InterfaceErrorView>(InterfaceErrorView::ParseError));
        } else if unreadable_function(ds.last()) {
            assert(unreadable_function(ds[ds.len() - 1]));
            assert(function_descriptor(ds.last()) == Some(Err::<InstructionView, InterfaceErrorView>(InterfaceErrorView::ParseError)));
            assert(declared_from_functions(ds) == Err::<Seq<InstructionView>, InterfaceErrorView>(InterfaceErrorView::ParseError));
        } else {
            assert(function_descriptors(ds) == function_descriptors(init) + match extracted_function(ds.last()) {
                Some(ix) => seq![ix],
                None => Seq::empty(),
            });
            if let Some(ix) = extracted_function(ds.last()) {
                assert(function_descriptors(init) + seq![ix] =~= function_descriptors(init).push(ix));
            }
            assert(declared_from_functions(ds) == Ok::<Seq<InstructionView>, InterfaceErrorView>(function_descriptors(ds)));
            assert forall|i: int| 0 <= i < ds.len() implies !unreadable_function(#[trigger] ds[i]) by {
                if i < init.len() {
                    assert(!unreadable_function(init[i]));
                }
            }
        }
    }
}

/// The descriptor an annotated variant yields, when it can be read.
pub open spec fn extracted_variant(d: VariantDecl) -> Option<InstructionView> {
    match variant_descriptor(d) {
        Some(Ok(ix)) => Some(ix),
        _ => None,
    }
}

/// The variant carries an `interface` annotation but cannot be read into a
/// descriptor.
pub open spec fn unreadable_variant(d: VariantDecl) -> bool {
    variant_descriptor(d) matches Some(Err(_))
}

/// The descriptors of the annotated variants, in order.
pub open spec fn variant_descriptors(ds: Seq<VariantDecl>) -> Seq<InstructionView> {
    ds.filter_map(|d: VariantDecl| extracted_variant(d))
}

/// Extraction and validation of variants, stated directly: a single
/// unreadable annotated variant anywhere gives `ParseError`; otherwise the
/// result is the evaluation of the descriptors of the annotated variants,
/// in order, and the variants without an annotation play no part.
pub proof fn lemma_variants_outcome(ds: Seq<VariantDecl>)
    ensures
        declared_from_variants(ds) == if exists|i: int| 0 <= i < ds.len() && unreadable_variant(#[trigger] ds[i]) {
            Err(InterfaceErrorView::ParseError)
        } else {
            Ok(variant_descriptors(ds))
        },
        variants_outcome(ds) == if exists|i: int| 0 <= i < ds.len() && unreadable_variant(#[trigger] ds[i]) {
            Err(InterfaceErrorView::ParseError)
        } else {
            verdict(builtin_registry(), variant_descriptors(ds))
        },
    decreases ds.len(),
{
    if ds.len() > 0 {
        let init = ds.drop_last();
        lemma_variants_outcome(init);
        assert forall|i: int| 0 <= i < init.len() implies init[i] == ds[i] by {}
        if exists|i: int| 0 <= i < init.len() && unreadable_variant(#[trigger] init[i]) {
            let i = choose|i: int| 0 <= i < init.len() && unreadable_variant(#[trigger] init[i]);
            assert(unreadable_variant(ds[i]));
            assert(declared_from_variants(ds) == Err::<Seq<InstructionView>, InterfaceErrorView>(InterfaceErrorView::ParseError));
        } else if unreadable_variant(ds.last()) {
            assert(unreadable_variant(ds[ds.len() - 1]));
            assert(variant_descriptor(ds.last()) == Some(Err::<InstructionView, InterfaceErrorView>(InterfaceErrorView::ParseError)));
            assert(declared_from_variants(ds) == Err::<Seq<InstructionView>, InterfaceErrorView>(InterfaceErrorView::ParseError));
        } else {
            assert(variant_descriptors(ds) == variant_descriptors(init) + match extracted_variant(ds.last()) {
                Some(ix) => seq![ix],
                None => Seq::empty(),
            });
            if let Some(ix) = extracted_variant(ds.last()) {
                assert(variant_descriptors(init) + seq![ix] =~= variant_descriptors(init).push(ix));
            }
            assert(declared_from_variants(ds) == Ok::<Seq<InstructionView>, InterfaceErrorView>(variant_descriptors(ds)));
            assert forall|i: int| 0 <= i < ds.len() implies !unreadable_variant(#[trigger] ds[i]) by {
                if i < init.len() {
                    assert(!unreadable_variant(init[i]));
                }
            }
        }
    }
}

} // verus!
