//! Laws of how literals and types are written, and of the rows that matches go by.
use crate::folding::{all_escaped, hex_char, hexadecimal, quoted};
use crate::methods::SpecPredicate;
use crate::notation::{method_text, requirement_text, signature_text, texts_of, TypeNotation};
use crate::rows::{applied2, literal_union_text, subject_row, union_domain};
use crate::text::joined;
use crate::type_ops::{literal_text, mapped, replacement_rule};
use crate::types::{SpecLiteral, SpecRow, SpecRowEntry, SpecType};
use vstd::prelude::*;

verus! {

// ---------------------------------------------------------------------------
// Text literals
// ---------------------------------------------------------------------------
/// The value of a text of hexadecimal digits.
pub open spec fn hexadecimal_value(text: Seq<char>) -> nat
    decreases text.len(),
{
    if text.len() == 0 {
        0
    } else {
        let digit = text.last() as nat;
        hexadecimal_value(text.drop_last()) * 16 + (if digit < 58 {
            (digit - 48) as nat
        } else {
            (digit - 87) as nat
        })
    }
}

/// A hexadecimal numeral has the value that it was written for.
pub proof fn hexadecimal_numerals_read_back(value: nat)
    ensures
        hexadecimal_value(hexadecimal(value)) == value,
        hexadecimal(value).len() > 0,
    decreases value,
{
    if value < 16 {
        let digits = seq![hex_char(value as int)];
        assert(hexadecimal(value) =~= digits);
        assert(digits.drop_last() =~= Seq::empty());
        assert(hexadecimal_value(digits.drop_last()) == 0);
        assert(digits.last() == hex_char(value as int));
    } else {
        hexadecimal_numerals_read_back(value / 16);
        let rest = hexadecimal(value / 16);
        let digits = rest.push(hex_char((value % 16) as int));
        assert(digits.drop_last() =~= rest);
        assert(digits.last() == hex_char((value % 16) as int));
        assert(value == value / 16 * 16 + value % 16);
    }
}

/// Wherever it stands in a text, a line break, a return and a tab are written by their letters, a
/// quotation mark and a backslash behind a backslash, another control code by its number in
/// braces, and any other character as it is.
pub proof fn characters_are_written(text: Seq<char>, c: char)
    ensures
        quoted(text) == "\""@ + all_escaped(text) + "\""@,
        all_escaped(text.push('\n')) == all_escaped(text) + seq!['\\', 'n'],
        all_escaped(text.push('\r')) == all_escaped(text) + seq!['\\', 'r'],
        all_escaped(text.push('\t')) == all_escaped(text) + seq!['\\', 't'],
        all_escaped(text.push('"')) == all_escaped(text) + seq!['\\', '"'],
        all_escaped(text.push('\\')) == all_escaped(text) + seq!['\\', '\\'],
        ((c as u32) < 32 || 127 <= (c as u32) <= 159) && c != '\n' && c != '\r' && c != '\t'
            ==> all_escaped(text.push(c)) == all_escaped(text) + (seq!['\\', 'u', '{']
            + hexadecimal(c as nat) + seq!['}']),
        (32 <= (c as u32) < 127 || (c as u32) > 159) && c != '"' && c != '\\' ==> all_escaped(
            text.push(c),
        ) == all_escaped(text).push(c),
{
    last_character_is_written(text, '\n');
    last_character_is_written(text, '\r');
    last_character_is_written(text, '\t');
    last_character_is_written(text, '"');
    last_character_is_written(text, '\\');
    last_character_is_written(text, c);
    reveal_strlit("\\n");
    reveal_strlit("\\r");
    reveal_strlit("\\t");
    reveal_strlit("\\\"");
    reveal_strlit("\\\\");
    reveal_strlit("\\u{");
    reveal_strlit("}");
    assert("\\n"@ =~= seq!['\\', 'n']);
    assert("\\r"@ =~= seq!['\\', 'r']);
    assert("\\t"@ =~= seq!['\\', 't']);
    assert("\\\""@ =~= seq!['\\', '"']);
    assert("\\\\"@ =~= seq!['\\', '\\']);
    assert("\\u{"@ =~= seq!['\\', 'u', '{']);
    assert("}"@ =~= seq!['}']);
    assert(all_escaped(text) + seq![c] =~= all_escaped(text).push(c));
}

proof fn last_character_is_written(text: Seq<char>, c: char)
    ensures
        all_escaped(text.push(c)) == all_escaped(text) + crate::folding::escaped(c),
{
    assert(text.push(c).drop_last() =~= text);
    assert(text.push(c).last() == c);
}

// ---------------------------------------------------------------------------
// Types in messages
// ---------------------------------------------------------------------------
/// A literal is written as it stands in the source, and a union of literals with bars between
/// them.
pub proof fn literals_are_written_as_they_stand(
    literals: Seq<SpecLiteral>,
    literal: SpecLiteral,
)
    ensures
        literal matches SpecLiteral::Number(text) ==> literal_text(literal) == text,
        literal matches SpecLiteral::String(text) ==> literal_text(literal) == text,
        literal == SpecLiteral::Bool(true) ==> literal_text(literal) == "true"@,
        literal == SpecLiteral::Bool(false) ==> literal_text(literal) == "false"@,
        literal_union_text(seq![literal]) == literal_text(literal),
        literals.len() > 0 ==> literal_union_text(literals.push(literal)) == literal_union_text(
            literals,
        ) + " | "@ + literal_text(literal),
{
    let texts = literals.map_values(|literal: SpecLiteral| literal_text(literal));
    let longer = literals.push(literal).map_values(|literal: SpecLiteral| literal_text(literal));
    assert(longer =~= texts.push(literal_text(literal)));
    assert(longer.drop_last() =~= texts);
    let single = seq![literal].map_values(|literal: SpecLiteral| literal_text(literal));
    assert(single =~= seq![literal_text(literal)]);
}

/// A signature is written with an arrow before its result. One parameter stands alone; more stand
/// in brackets, in order, with commas between them. A method has its parameters in brackets in any
/// case, and a colon before its result.
pub proof fn signatures_are_written<N: TypeNotation>(
    notation: &N,
    params: Seq<SpecType>,
    param: SpecType,
    result: SpecType,
    method: crate::methods::SpecMethod,
)
    requires
        method.params == params,
        method.result == result,
    ensures
        signature_text(notation, seq![param], result) == notation.text_of(param) + " -> "@
            + notation.text_of(result),
        params.len() != 1 ==> signature_text(notation, params, result) == "("@ + joined(
            texts_of(notation, params),
            ", "@,
        ) + ")"@ + " -> "@ + notation.text_of(result),
        method_text(notation, method) == "("@ + joined(texts_of(notation, params), ", "@) + "): "@
            + notation.text_of(result),
        texts_of(notation, params).len() == params.len(),
        forall|i: int|
            0 <= i < params.len() ==> #[trigger] texts_of(notation, params)[i] == notation.text_of(
                params[i],
            ),
{
}

/// A requirement is written with `Self` for the type that it is made of: in its parameters always,
/// and in its result unless it compares.
pub proof fn requirements_speak_of_self<N: TypeNotation>(notation: &N, predicate: SpecPredicate)
    ensures
        ({
            let rule = replacement_rule(predicate.candidate, SpecType::Named("Self"@));
            let params = Seq::new(
                predicate.params.len(),
                |i: int| notation.text_of(mapped(predicate.params[i], rule)),
            );
            let opening = "{ "@ + predicate.member + "("@ + joined(params, ", "@) + "): "@;
            &&& predicate.member == "<"@ || predicate.member == "<="@ || predicate.member == ">"@
                || predicate.member == ">="@ ==> requirement_text(notation, predicate) == opening
                + notation.text_of(predicate.result) + ", .. }"@
            &&& !(predicate.member == "<"@ || predicate.member == "<="@ || predicate.member == ">"@
                || predicate.member == ">="@) ==> requirement_text(notation, predicate) == opening
                + notation.text_of(mapped(predicate.result, rule)) + ", .. }"@
        }),
{
    let rule = replacement_rule(predicate.candidate, SpecType::Named("Self"@));
    let params = Seq::new(
        predicate.params.len(),
        |i: int| notation.text_of(mapped(predicate.params[i], rule)),
    );
    assert(predicate.params.map_values(
        |param: SpecType|
            notation.text_of(crate::notation::relative_to(param, predicate.candidate, true)),
    ) =~= params);
}

// ---------------------------------------------------------------------------
// Rows that matches go by
// ---------------------------------------------------------------------------
/// A match on a truth value goes by both truth values and nothing else, one on a result by a value
/// in `Ok` and an error in `Err` and nothing else, one on a variant by its row, and one on a name
/// by the variant that the name stands for. Other types have no row.
pub proof fn matches_go_by_the_row_of_their_subject(
    definitions: Map<Seq<char>, SpecType>,
    row: SpecRow,
    name: Seq<char>,
    ok: SpecType,
    error: SpecType,
    entry: SpecRowEntry,
)
    ensures
        subject_row(SpecType::Variant(row), definitions) == Some(row),
        definitions.contains_key(name) && definitions[name] == SpecType::Variant(row)
            ==> subject_row(SpecType::Named(name), definitions) == Some(row),
        !definitions.contains_key(name) && name != "Bool"@ ==> subject_row(
            SpecType::Named(name),
            definitions,
        ) is None,
        !definitions.contains_key("Bool"@) ==> ({
            let truth = subject_row(SpecType::Named("Bool"@), definitions)->0;
            &&& subject_row(SpecType::Named("Bool"@), definitions) is Some
            &&& truth.tail is Closed
            &&& truth.entries.contains(entry) <==> entry is Literal && entry->value is Bool
        }),
        ({
            let subject = applied2("Result"@, ok, error);
            let tags = subject_row(subject, definitions)->0;
            &&& subject_row(subject, definitions) is Some
            &&& tags.tail is Closed
            &&& tags.entries.contains(entry) <==> entry == (SpecRowEntry::Tag {
                name: "Ok"@,
                payload: seq![ok],
            }) || entry == (SpecRowEntry::Tag { name: "Err"@, payload: seq![error] })
        }),
        subject_row(SpecType::Tuple(seq![ok, error]), definitions) is None,
        subject_row(SpecType::Record(row), definitions) is None,
{
    let truth = crate::rows::bool_row().entries;
    assert(truth[0] == SpecRowEntry::Literal { value: SpecLiteral::Bool(true) });
    assert(truth[1] == SpecRowEntry::Literal { value: SpecLiteral::Bool(false) });
    if entry is Literal && entry->value is Bool {
        if entry->value->Bool_0 {
            assert(truth[0] == entry);
        } else {
            assert(truth[1] == entry);
        }
    }
    let tags = crate::rows::result_row(ok, error).entries;
    assert(tags[0] == SpecRowEntry::Tag { name: "Ok"@, payload: seq![ok] });
    assert(tags[1] == SpecRowEntry::Tag { name: "Err"@, payload: seq![error] });
    let subject = applied2("Result"@, ok, error);
    assert(subject_row(subject, definitions) == Some(crate::rows::result_row(ok, error)));
}

/// The values that a parameter admits are listed by a variant, or by a set of one; nothing else
/// lists values.
pub proof fn domains_are_unions(row: SpecRow, other: SpecType)
    ensures
        union_domain(SpecType::Variant(row)) == Some(row),
        union_domain(crate::rows::applied1("Set"@, SpecType::Variant(row))) == Some(row),
        union_domain(crate::rows::applied1("Array"@, SpecType::Variant(row))) is None,
        !(other is Variant) ==> union_domain(crate::rows::applied1("Set"@, other)) is None,
        other is Named || other is Record || other is Tuple || other is Function ==> union_domain(
            other,
        ) is None,
{
    reveal_strlit("Array");
    reveal_strlit("Set");
    assert("Array"@.len() != "Set"@.len());
}

} // verus!
