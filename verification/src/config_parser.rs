//! The code that `#[derive(ConfigParse)]` writes for a configuration struct:
//! an impl of `config_parser2::ConfigParser` that hands each entry of a TOML
//! table to the field of the same name.

use vstd::prelude::*;

verus! {

/// The struct a derive is applied to, as the expansion reads it: its name,
/// and the names of its fields when it is a struct with named fields
/// (`None` for any other item).
pub struct ConfigParserInput {
    pub ident: String,
    pub fields: Option<Vec<String>>,
}

/// The start of the impl, up to the struct's name.
pub const IMPL_HEAD: &'static str = "#[automatically_derived]\nimpl config_parser2::ConfigParser for ";

/// From the struct's name to the first match arm.
pub const PARSE_HEAD: &'static str = " {\n    fn parse(\n        &mut self,\n        value: config_parser2::toml::Value,\n    ) -> config_parser2::Result<()> {\n        if let config_parser2::toml::Value::Table(table) = value {\n            let result: config_parser2::Result<Vec<_>> = table.into_iter().map(|(key, value)| {\n                match key.as_str() {\n";

/// The start of a match arm, before the key.
pub const ARM_OPEN: &'static str = "                    \"";

/// Between the key of an arm and the field it parses into.
pub const ARM_MID: &'static str = "\" => self.";

/// The end of a match arm.
pub const ARM_CLOSE: &'static str = ".parse(value),\n";

/// From the last match arm to the struct's name in the error message.
pub const PARSE_TAIL: &'static str = "                    _ => Ok(()),\n                }\n            }).collect();\n            match result {\n                Err(err) => Err(err),\n                Ok(_) => Ok(()),\n            }\n        } else {\n            Err(config_parser2::__private::anyhow::anyhow!(\"config parsing error: expect TOML::Value::Table for {}\", \"";

/// The end of the impl, after the struct's name.
pub const IMPL_TAIL: &'static str = "\"))\n        }\n    }\n}\n";

/// The match arm of a field: its name as the key, parsed into the field.
pub open spec fn parser_arm(field: Seq<char>) -> Seq<char> {
    ARM_OPEN@ + field + ARM_MID@ + field + ARM_CLOSE@
}

/// The match arms of the fields, in their order.
pub open spec fn parser_arms(fields: Seq<Seq<char>>) -> Seq<char>
    decreases fields.len(),
{
    if fields.len() == 0 {
        Seq::empty()
    } else {
        parser_arms(fields.drop_last()) + parser_arm(fields.last())
    }
}

/// The impl of `ConfigParser` for the struct `ident` with the fields
/// `fields`: a TOML table is parsed entry by entry, each key that names a
/// field parsed into that field, other keys ignored; any other value is an
/// error that names the struct.
pub open spec fn config_parser_impl(ident: Seq<char>, fields: Seq<Seq<char>>) -> Seq<char> {
    IMPL_HEAD@ + ident + PARSE_HEAD@ + parser_arms(fields) + PARSE_TAIL@ + ident + IMPL_TAIL@
}

/// The names of a list of fields.
pub open spec fn field_names(fields: Seq<String>) -> Seq<Seq<char>> {
    fields.map_values(|f: String| f@)
}

/// The source of the impl that the derive writes for `input`, which must be
/// a struct with named fields.
pub fn expand_config_parsers(input: &ConfigParserInput) -> (code: String)
    requires
        input.fields is Some,
    ensures
        code@ == config_parser_impl(input.ident@, field_names(input.fields->0@)),
{
    let mut code = String::from_str(IMPL_HEAD);
    code.append(input.ident.as_str());
    code.append(PARSE_HEAD);
    let ghost start = code@;
    match &input.fields {
        Some(fields) => {
            let n = fields.len();
            assert(field_names(fields@).take(0) =~= Seq::<Seq<char>>::empty());
            for i in 0..n
                invariant
                    n == fields@.len(),
                    code@ == start + parser_arms(field_names(fields@).take(i as int)),
            {
                let field = fields[i].as_str();
                code.append(ARM_OPEN);
                code.append(field);
                code.append(ARM_MID);
                code.append(field);
                code.append(ARM_CLOSE);
                assert(field_names(fields@).take(i + 1).drop_last() =~= field_names(fields@).take(
                    i as int,
                ));
                assert(field_names(fields@).take(i + 1).last() == fields@[i as int]@);
            }
            assert(field_names(fields@).take(n as int) =~= field_names(fields@));
        },
        None => {},
    }
    code.append(PARSE_TAIL);
    code.append(input.ident.as_str());
    code.append(IMPL_TAIL);
    code
}

/// Whether `part` occurs in `text` at position `at`.
pub open spec fn occurs_at(text: Seq<char>, part: Seq<char>, at: int) -> bool {
    0 <= at && at + part.len() <= text.len() && text.subrange(at, at + part.len()) == part
}

/// The arms of the fields are the arms of each field, one after the other:
/// the arm of the `i`-th field, `"name" => self.name.parse(value),`, starts
/// where the arms of the fields before it end.
pub proof fn lemma_parser_arms_layout(fields: Seq<Seq<char>>)
    ensures
        forall|i: int|
            0 <= i < fields.len() ==> occurs_at(
                parser_arms(fields),
                ARM_OPEN@ + fields[i] + ARM_MID@ + fields[i] + ARM_CLOSE@,
                #[trigger] parser_arms(fields.take(i)).len() as int,
            ),
    decreases fields.len(),
{
    if fields.len() > 0 {
        let init = fields.drop_last();
        lemma_parser_arms_layout(init);
        let whole = parser_arms(fields);
        let front = parser_arms(init);
        assert forall|i: int| 0 <= i < fields.len() implies occurs_at(
            whole,
            ARM_OPEN@ + fields[i] + ARM_MID@ + fields[i] + ARM_CLOSE@,
            #[trigger] parser_arms(fields.take(i)).len() as int,
        ) by {
            let arm = ARM_OPEN@ + fields[i] + ARM_MID@ + fields[i] + ARM_CLOSE@;
            if i < fields.len() - 1 {
                assert(init.take(i) =~= fields.take(i));
                assert(init[i] == fields[i]);
                let at = parser_arms(init.take(i)).len() as int;
                assert(occurs_at(front, arm, at));
                assert(whole.subrange(at, at + arm.len()) =~= front.subrange(at, at + arm.len()));
            } else {
                assert(fields.take(i) =~= init);
                assert(whole.subrange(front.len() as int, (front.len() + arm.len()) as int) =~= arm);
            }
        }
    }
}

/// The impl that the derive writes has the match arm of every field: for
/// each field `f`, the text `"f" => self.f.parse(value),` occurs in it, after
/// the head of the impl and the arms of the fields before `f`.
pub proof fn lemma_every_field_has_its_arm(ident: Seq<char>, fields: Seq<Seq<char>>)
    ensures
        forall|i: int|
            0 <= i < fields.len() ==> occurs_at(
                config_parser_impl(ident, fields),
                ARM_OPEN@ + fields[i] + ARM_MID@ + fields[i] + ARM_CLOSE@,
                ((IMPL_HEAD@ + ident + PARSE_HEAD@).len() + #[trigger] parser_arms(fields.take(i)).len()) as int,
            ),
{
    lemma_parser_arms_layout(fields);
    let head = IMPL_HEAD@ + ident + PARSE_HEAD@;
    let arms = parser_arms(fields);
    let code = config_parser_impl(ident, fields);
    assert(code =~= head + arms + (PARSE_TAIL@ + ident + IMPL_TAIL@));
    assert forall|i: int| 0 <= i < fields.len() implies occurs_at(
        config_parser_impl(ident, fields),
        ARM_OPEN@ + fields[i] + ARM_MID@ + fields[i] + ARM_CLOSE@,
        ((IMPL_HEAD@ + ident + PARSE_HEAD@).len() + #[trigger] parser_arms(fields.take(i)).len()) as int,
    ) by {
        let arm = ARM_OPEN@ + fields[i] + ARM_MID@ + fields[i] + ARM_CLOSE@;
        let inner = parser_arms(fields.take(i)).len() as int;
        assert(occurs_at(arms, arm, inner));
        let at = head.len() + inner;
        assert(code.subrange(at, at + arm.len()) =~= arms.subrange(inner, inner + arm.len()));
    }
}

} // verus!
