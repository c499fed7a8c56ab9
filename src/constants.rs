use vstd::prelude::*;

verus! {

/// The letter that starts every diagnostic code.
pub const ERROR_CODE_PREFIX: &'static str = "D";

/// The lower-case form of `ERROR_CODE_PREFIX`, as it appears in links.
pub const INFO_CODE_PREFIX: &'static str = "d";

/// The text between a message and the lower-case code that ends it.
pub const MORE_INFO_BASE: &'static str = " (more info: https://example.com/";

/// A diagnostic code: the prefix letter followed by three digits.
pub open spec fn code_text(digits: Seq<char>) -> Seq<char> {
    ERROR_CODE_PREFIX@ + digits
}

/// The suffix of every message: a link named after the lower-case code.
pub open spec fn info_text(digits: Seq<char>) -> Seq<char> {
    MORE_INFO_BASE@ + INFO_CODE_PREFIX@ + digits
}

/// A message without a subject: code, body, link.
pub open spec fn message_text(digits: Seq<char>, body: Seq<char>) -> Seq<char> {
    code_text(digits) + body + info_text(digits)
}

/// A message about one named item: code, text around the item, link.
pub open spec fn item_message_text(
    digits: Seq<char>,
    before: Seq<char>,
    item: Seq<char>,
    after: Seq<char>,
) -> Seq<char> {
    code_text(digits) + before + item + after + info_text(digits)
}

fn make_code(digits: &str) -> (r: String)
    ensures
        r@ == code_text(digits@),
{
    String::from_str(ERROR_CODE_PREFIX).concat(digits)
}

fn make_message(digits: &str, body: &str) -> (r: String)
    ensures
        r@ == message_text(digits@, body@),
{
    make_code(digits).concat(body).concat(MORE_INFO_BASE).concat(INFO_CODE_PREFIX).concat(digits)
}

fn make_item_message(digits: &str, before: &str, item: &str, after: &str) -> (r: String)
    ensures
        r@ == item_message_text(digits@, before@, item@, after@),
{
    make_code(digits).concat(before).concat(item).concat(after).concat(MORE_INFO_BASE).concat(
        INFO_CODE_PREFIX,
    ).concat(digits)
}

/// The code of the diagnostic given when a function, method or class has no docstring.
pub fn docstr_missing_code() -> (r: String)
    ensures
        r@ == code_text("010"@),
{
    make_code("010")
}

pub open spec fn docstr_missing_msg_text() -> Seq<char> {
    message_text("010"@, " docstring should be defined for a function/ method/ class"@)
}

/// The message given when a function, method or class has no docstring.
pub fn docstr_missing_msg() -> (r: String)
    ensures
        r@ == docstr_missing_msg_text(),
{
    make_message("010", " docstring should be defined for a function/ method/ class")
}

/// The code of the diagnostic given when a function with arguments has no arguments section.
pub fn args_section_not_in_docstr_code() -> (r: String)
    ensures
        r@ == code_text("020"@),
{
    make_code("020")
}

pub open spec fn args_section_not_in_docstr_msg_text() -> Seq<char> {
    message_text("020"@, " a function/ method with arguments should have the arguments section in the docstring"@)
}

/// The message given when a function with arguments has no arguments section.
pub fn args_section_not_in_docstr_msg() -> (r: String)
    ensures
        r@ == args_section_not_in_docstr_msg_text(),
{
    make_message("020", " a function/ method with arguments should have the arguments section in the docstring")
}

/// The code of the diagnostic given when a function without arguments has an arguments section.
pub fn args_section_in_docstr_code() -> (r: String)
    ensures
        r@ == code_text("021"@),
{
    make_code("021")
}

pub open spec fn args_section_in_docstr_msg_text() -> Seq<char> {
    message_text("021"@, " a function/ method without arguments should not have the arguments section in the docstring"@)
}

/// The message given when a function without arguments has an arguments section.
pub fn args_section_in_docstr_msg() -> (r: String)
    ensures
        r@ == args_section_in_docstr_msg_text(),
{
    make_message("021", " a function/ method without arguments should not have the arguments section in the docstring")
}

/// The code of the diagnostic given when a docstring has more than one arguments section.
pub fn mult_args_sections_in_docstr_code() -> (r: String)
    ensures
        r@ == code_text("022"@),
{
    make_code("022")
}

pub open spec fn mult_args_sections_in_docstr_msg_text(found: Seq<char>) -> Seq<char> {
    item_message_text("022"@, " a docstring should only contain a single arguments section, found "@, found, ""@)
}

/// The message given when a docstring has more than one arguments section; it names `found`.
pub fn mult_args_sections_in_docstr_msg(found: &str) -> (r: String)
    ensures
        r@ == mult_args_sections_in_docstr_msg_text(found@),
{
    make_item_message("022", " a docstring should only contain a single arguments section, found ", found, "")
}

/// The code of the diagnostic given when an argument is not described in the docstring.
pub fn arg_not_in_docstr_code() -> (r: String)
    ensures
        r@ == code_text("023"@),
{
    make_code("023")
}

pub open spec fn arg_not_in_docstr_msg_text(arg: Seq<char>) -> Seq<char> {
    item_message_text("023"@, " \""@, arg, "\" argument should be described in the docstring"@)
}

/// The message given when an argument is not described in the docstring; it names `arg`.
pub fn arg_not_in_docstr_msg(arg: &str) -> (r: String)
    ensures
        r@ == arg_not_in_docstr_msg_text(arg@),
{
    make_item_message("023", " \"", arg, "\" argument should be described in the docstring")
}

/// The code of the diagnostic given when the docstring describes an argument the function does not have.
pub fn arg_in_docstr_code() -> (r: String)
    ensures
        r@ == code_text("024"@),
{
    make_code("024")
}

pub open spec fn arg_in_docstr_msg_text(arg: Seq<char>) -> Seq<char> {
    item_message_text("024"@, " \""@, arg, "\" argument should not be described in the docstring"@)
}

/// The message given when the docstring describes an argument the function does not have; it names `arg`.
pub fn arg_in_docstr_msg(arg: &str) -> (r: String)
    ensures
        r@ == arg_in_docstr_msg_text(arg@),
{
    make_item_message("024", " \"", arg, "\" argument should not be described in the docstring")
}

/// The code of the diagnostic given when an argument is described more than once.
pub fn duplicate_arg_in_docstr_code() -> (r: String)
    ensures
        r@ == code_text("025"@),
{
    make_code("025")
}

pub open spec fn duplicate_arg_msg_text(arg: Seq<char>) -> Seq<char> {
    item_message_text("025"@, " \""@, arg, "\" argument documented multiple times"@)
}

/// The message given when an argument is described more than once; it names `arg`.
pub fn duplicate_arg_msg(arg: &str) -> (r: String)
    ensures
        r@ == duplicate_arg_msg_text(arg@),
{
    make_item_message("025", " \"", arg, "\" argument documented multiple times")
}

/// The code of the diagnostic given when a function that returns a value has no returns section.
pub fn returns_section_not_in_docstr_code() -> (r: String)
    ensures
        r@ == code_text("030"@),
{
    make_code("030")
}

pub open spec fn returns_section_not_in_docstr_msg_text() -> Seq<char> {
    message_text("030"@, " function/ method that returns a value should have the returns section in the docstring"@)
}

/// The message given when a function that returns a value has no returns section.
pub fn returns_section_not_in_docstr_msg() -> (r: String)
    ensures
        r@ == returns_section_not_in_docstr_msg_text(),
{
    make_message("030", " function/ method that returns a value should have the returns section in the docstring")
}

/// The code of the diagnostic given when a function that returns no value has a returns section.
pub fn returns_section_in_docstr_code() -> (r: String)
    ensures
        r@ == code_text("031"@),
{
    make_code("031")
}

pub open spec fn returns_section_in_docstr_msg_text() -> Seq<char> {
    message_text("031"@, " function/ method that does not return a value should not have the returns section in the docstring"@)
}

/// The message given when a function that returns no value has a returns section.
pub fn returns_section_in_docstr_msg() -> (r: String)
    ensures
        r@ == returns_section_in_docstr_msg_text(),
{
    make_message("031", " function/ method that does not return a value should not have the returns section in the docstring")
}

/// The code of the diagnostic given when a docstring has more than one returns section.
pub fn mult_returns_sections_in_docstr_code() -> (r: String)
    ensures
        r@ == code_text("032"@),
{
    make_code("032")
}

pub open spec fn mult_returns_sections_in_docstr_msg_text(found: Seq<char>) -> Seq<char> {
    item_message_text("032"@, " a docstring should only contain a single returns section, found "@, found, ""@)
}

/// The message given when a docstring has more than one returns section; it names `found`.
pub fn mult_returns_sections_in_docstr_msg(found: &str) -> (r: String)
    ensures
        r@ == mult_returns_sections_in_docstr_msg_text(found@),
{
    make_item_message("032", " a docstring should only contain a single returns section, found ", found, "")
}

/// The code of the diagnostic given when a function that yields a value has no yields section.
pub fn yields_section_not_in_docstr_code() -> (r: String)
    ensures
        r@ == code_text("040"@),
{
    make_code("040")
}

pub open spec fn yields_section_not_in_docstr_msg_text() -> Seq<char> {
    message_text("040"@, " function/ method that yields a value should have the yields section in the docstring"@)
}

/// The message given when a function that yields a value has no yields section.
pub fn yields_section_not_in_docstr_msg() -> (r: String)
    ensures
        r@ == yields_section_not_in_docstr_msg_text(),
{
    make_message("040", " function/ method that yields a value should have the yields section in the docstring")
}

/// The code of the diagnostic given when a function that yields no value has a yields section.
pub fn yields_section_in_docstr_code() -> (r: String)
    ensures
        r@ == code_text("041"@),
{
    make_code("041")
}

pub open spec fn yields_section_in_docstr_msg_text() -> Seq<char> {
    message_text("041"@, " function/ method that does not yield a value should not have the yields section in the docstring"@)
}

/// The message given when a function that yields no value has a yields section.
pub fn yields_section_in_docstr_msg() -> (r: String)
    ensures
        r@ == yields_section_in_docstr_msg_text(),
{
    make_message("041", " function/ method that does not yield a value should not have the yields section in the docstring")
}

/// The code of the diagnostic given when a docstring has more than one yields section.
pub fn mult_yields_sections_in_docstr_code() -> (r: String)
    ensures
        r@ == code_text("042"@),
{
    make_code("042")
}

pub open spec fn mult_yields_sections_in_docstr_msg_text(found: Seq<char>) -> Seq<char> {
    item_message_text("042"@, " a docstring should only contain a single yields section, found "@, found, ""@)
}

/// The message given when a docstring has more than one yields section; it names `found`.
pub fn mult_yields_sections_in_docstr_msg(found: &str) -> (r: String)
    ensures
        r@ == mult_yields_sections_in_docstr_msg_text(found@),
{
    make_item_message("042", " a docstring should only contain a single yields section, found ", found, "")
}

/// The code of the diagnostic given when a function that raises an exception has no raises section.
pub fn raises_section_not_in_docstr_code() -> (r: String)
    ensures
        r@ == code_text("050"@),
{
    make_code("050")
}

pub open spec fn raises_section_not_in_docstr_msg_text() -> Seq<char> {
    message_text("050"@, " a function/ method that raises an exception should have the raises section in the docstring "@)
}

/// The message given when a function that raises an exception has no raises section.
pub fn raises_section_not_in_docstr_msg() -> (r: String)
    ensures
        r@ == raises_section_not_in_docstr_msg_text(),
{
    make_message("050", " a function/ method that raises an exception should have the raises section in the docstring ")
}

/// The code of the diagnostic given when a function that raises no exception has a raises section.
pub fn raises_section_in_docstr_code() -> (r: String)
    ensures
        r@ == code_text("051"@),
{
    make_code("051")
}

pub open spec fn raises_section_in_docstr_msg_text() -> Seq<char> {
    message_text("051"@, " a function/ method that does not raise an exception should not have the raises section in the docstring "@)
}

/// The message given when a function that raises no exception has a raises section.
pub fn raises_section_in_docstr_msg() -> (r: String)
    ensures
        r@ == raises_section_in_docstr_msg_text(),
{
    make_message("051", " a function/ method that does not raise an exception should not have the raises section in the docstring ")
}

/// The code of the diagnostic given when a docstring has more than one raises section.
pub fn mult_raises_sections_in_docstr_code() -> (r: String)
    ensures
        r@ == code_text("052"@),
{
    make_code("052")
}

pub open spec fn mult_raises_sections_in_docstr_msg_text(found: Seq<char>) -> Seq<char> {
    item_message_text("052"@, " a docstring should only contain a single raises section, found "@, found, ""@)
}

/// The message given when a docstring has more than one raises section; it names `found`.
pub fn mult_raises_sections_in_docstr_msg(found: &str) -> (r: String)
    ensures
        r@ == mult_raises_sections_in_docstr_msg_text(found@),
{
    make_item_message("052", " a docstring should only contain a single raises section, found ", found, "")
}

/// The code of the diagnostic given when a raised exception is not described in the docstring.
pub fn exc_not_in_docstr_code() -> (r: String)
    ensures
        r@ == code_text("053"@),
{
    make_code("053")
}

pub open spec fn exc_not_in_docstr_msg_text(exc: Seq<char>) -> Seq<char> {
    item_message_text("053"@, " \""@, exc, "\" exception should be described in the docstring"@)
}

/// The message given when a raised exception is not described in the docstring; it names `exc`.
pub fn exc_not_in_docstr_msg(exc: &str) -> (r: String)
    ensures
        r@ == exc_not_in_docstr_msg_text(exc@),
{
    make_item_message("053", " \"", exc, "\" exception should be described in the docstring")
}

/// The code of the diagnostic given when the docstring describes an exception that is not raised.
pub fn exc_in_docstr_code() -> (r: String)
    ensures
        r@ == code_text("054"@),
{
    make_code("054")
}

pub open spec fn exc_in_docstr_msg_text(exc: Seq<char>) -> Seq<char> {
    item_message_text("054"@, " \""@, exc, "\" exception should not be described in the docstring"@)
}

/// The message given when the docstring describes an exception that is not raised; it names `exc`.
pub fn exc_in_docstr_msg(exc: &str) -> (r: String)
    ensures
        r@ == exc_in_docstr_msg_text(exc@),
{
    make_item_message("054", " \"", exc, "\" exception should not be described in the docstring")
}

/// The code of the diagnostic given when a function re-raises but the raises section names no exception.
pub fn re_raise_no_exc_in_docstr_code() -> (r: String)
    ensures
        r@ == code_text("055"@),
{
    make_code("055")
}

pub open spec fn re_raise_no_exc_in_docstr_msg_text() -> Seq<char> {
    message_text("055"@, " a function/ method that re-raises exceptions should describe at least one exception in the raises section of the docstring"@)
}

/// The message given when a function re-raises but the raises section names no exception.
pub fn re_raise_no_exc_in_docstr_msg() -> (r: String)
    ensures
        r@ == re_raise_no_exc_in_docstr_msg_text(),
{
    make_message("055", " a function/ method that re-raises exceptions should describe at least one exception in the raises section of the docstring")
}

/// The code of the diagnostic given when an exception is described more than once.
pub fn duplicate_exc_in_docstr_code() -> (r: String)
    ensures
        r@ == code_text("056"@),
{
    make_code("056")
}

pub open spec fn duplicate_exc_msg_text(exc: Seq<char>) -> Seq<char> {
    item_message_text("056"@, " \""@, exc, "\" exception documented multiple times"@)
}

/// The message given when an exception is described more than once; it names `exc`.
pub fn duplicate_exc_msg(exc: &str) -> (r: String)
    ensures
        r@ == duplicate_exc_msg_text(exc@),
{
    make_item_message("056", " \"", exc, "\" exception documented multiple times")
}

} // verus!
