//! The types of `parity_wasm` that the library hands on.

use vstd::prelude::*;

verus! {

#[verifier::external_type_specification]
#[verifier::external_body]
#[verifier::reject_recursive_types(F)]
pub struct ExModuleBuilder<F>(parity_wasm::builder::ModuleBuilder<F>);

#[verifier::external_type_specification]
#[verifier::external_body]
#[verifier::reject_recursive_types(F)]
pub struct ExTableBuilder<F>(parity_wasm::builder::TableBuilder<F>);

#[verifier::external_type_specification]
#[verifier::external_body]
pub struct ExIdentity(parity_wasm::builder::Identity);

#[verifier::external_type_specification]
#[verifier::external_body]
pub struct ExModule(parity_wasm::elements::Module);

#[verifier::external_type_specification]
#[verifier::external_body]
pub struct ExInstruction(parity_wasm::elements::Instruction);

#[verifier::external_type_specification]
#[verifier::external_body]
pub struct ExValueType(parity_wasm::elements::ValueType);

#[verifier::external_type_specification]
#[verifier::external_body]
pub struct ExError(parity_wasm::elements::Error);

} // verus!
