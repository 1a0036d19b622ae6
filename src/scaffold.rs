use vstd::prelude::*;
use vstd::string::StringExecFns;

use heck::ToSnakeCase;

verus! {

/// The snake-case form of a name.
pub uninterp spec fn snake_case_of(s: Seq<char>) -> Seq<char>;

/// Relies on heck's `ToSnakeCase::to_snake_case`: the result depends on the
/// characters alone.
#[verifier::external_body]
fn to_snake_case(s: &str) -> (r: String)
    ensures
        r@ == snake_case_of(s@),
{
    s.to_snake_case()
}

/// The manifest of a new hook project named `name`, depending on version
/// `version` of the framework.
pub open spec fn cargo_toml_text(name: Seq<char>, version: Seq<char>, lib_name: Seq<char>) -> Seq<char> {
    "[package]\nname = \""@ + name + "\"\nversion = \"0.1.0\"\ndescription = \"Created with Kaptn\"\nedition = \"2021\"\n\n[dependencies]\nkaptn-lang = \""@
        + version + "\" \n\n[lib]\ncrate-type = [\"cdylib\", \"lib\"]\nname = \""@ + lib_name
        + "\"\n"@
}

/// The program source of a new hook project named `name`, with its program
/// and mint addresses written out.
pub open spec fn program_text(fn_name: Seq<char>, program_id: Seq<char>, mint_id: Seq<char>) -> Seq<char> {
    "use kaptn_lang::prelude::*;\n\ndeclare_id!(\""@ + program_id + "\");\ndeclare_mint!(\""@ + mint_id
        + "\");\n\n#[transfer_hook]\npub fn "@ + fn_name
        + "(ctx: TransferContext<MyExtraMetas>) -> ProgramResult {\n    msg!(\"Ahoy from transfer-hook program: {:?}\", ctx.program_id);\n    Ok(())\n}\n\n#[derive(ExtraMetas)]\npub struct MyExtraMetas {}\n"@
}

/// Writes the manifest of a new hook project whose library is `lib_name`.
pub fn cargo_toml_with_lib_name(name: &str, version: &str, lib_name: &str) -> (r: String)
    ensures
        r@ == cargo_toml_text(name@, version@, lib_name@),
{
    let mut s = String::from_str("[package]\nname = \"");
    s.append(name);
    s.append("\"\nversion = \"0.1.0\"\ndescription = \"Created with Kaptn\"\nedition = \"2021\"\n\n[dependencies]\nkaptn-lang = \"");
    s.append(version);
    s.append("\" \n\n[lib]\ncrate-type = [\"cdylib\", \"lib\"]\nname = \"");
    s.append(lib_name);
    s.append("\"\n");
    s
}

/// Writes the manifest of a new hook project; its library takes the
/// snake-case form of the name.
pub fn create_cargo_toml_content(name: &str, version: &str) -> (r: String)
    ensures
        r@ == cargo_toml_text(name@, version@, snake_case_of(name@)),
{
    let snake = to_snake_case(name);
    cargo_toml_with_lib_name(name, version, snake.as_str())
}

/// Writes the program source of a new hook project whose callback is
/// `fn_name`.
pub fn program_with_fn_name(fn_name: &str, program_id: &str, mint_id: &str) -> (r: String)
    ensures
        r@ == program_text(fn_name@, program_id@, mint_id@),
{
    let mut s = String::from_str("use kaptn_lang::prelude::*;\n\ndeclare_id!(\"");
    s.append(program_id);
    s.append("\");\ndeclare_mint!(\"");
    s.append(mint_id);
    s.append("\");\n\n#[transfer_hook]\npub fn ");
    s.append(fn_name);
    s.append("(ctx: TransferContext<MyExtraMetas>) -> ProgramResult {\n    msg!(\"Ahoy from transfer-hook program: {:?}\", ctx.program_id);\n    Ok(())\n}\n\n#[derive(ExtraMetas)]\npub struct MyExtraMetas {}\n");
    s
}

/// Writes the program source of a new hook project; its callback takes the
/// snake-case form of the name.
pub fn create_program_content(name: &str, program_id: &str, mint_id: &str) -> (r: String)
    ensures
        r@ == program_text(snake_case_of(name@), program_id@, mint_id@),
{
    let snake = to_snake_case(name);
    program_with_fn_name(snake.as_str(), program_id, mint_id)
}

} // verus!
