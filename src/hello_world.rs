use vstd::prelude::*;
use crate::error::DataError;
use crate::key::{LocaleSelector, Request, ResourceCategory, ResourceKey};
use crate::locale::LanguageIdentifier;
use crate::payload::{DataPayload, ErasedDataStruct, ErasedPayload, Response, ResponseBuilder};
use crate::cldr::{
    all_locales_valid, cldr_locale_spec, lemma_two_letter_locale, locale_table, selectors_for, selectors_of,
    table_matches, with_locales,
};
use crate::zeromap::last_value;
use crate::structs::HelloWorldV1;
use crate::zeromap::ZeroMap;

verus! {

/// Is `key` the "Hello World" key, `icu4x/helloworld@1`?
pub open spec fn is_hello_world_key(key: ResourceKey) -> bool {
    key.category == ResourceCategory::Icu4x && key.version == 1 && key.sub_category@
        == "helloworld"@
}

/// The error by which a "Hello World" provider turns away `key`.
pub open spec fn hello_world_mismatch(key: ResourceKey) -> DataError {
    if key.category != ResourceCategory::Icu4x {
        DataError::UnsupportedCategory(key.category)
    } else if key.version != 1 {
        DataError::UnsupportedVersion(key)
    } else {
        DataError::UnsupportedSubCategory(key)
    }
}

/// Checks that `key` is the "Hello World" key.
pub fn match_hello_world_key(key: &ResourceKey) -> (r: Result<(), DataError>)
    ensures
        r is Ok <==> is_hello_world_key(*key),
        r matches Err(e) ==> e == hello_world_mismatch(*key),
{
    if key.category != ResourceCategory::Icu4x {
        Err(DataError::UnsupportedCategory(key.category))
    } else if key.version != 1 {
        Err(DataError::UnsupportedVersion(key.duplicate()))
    } else if !key.sub_category_is("helloworld") {
        Err(DataError::UnsupportedSubCategory(key.duplicate()))
    } else {
        Ok(())
    }
}

/// The locale names of the placeholder data.
pub open spec fn placeholder_names() -> Seq<Seq<char>> {
    seq![
        "bn"@,
        "cs"@,
        "de"@,
        "el"@,
        "en"@,
        "eo"@,
        "fa"@,
        "fi"@,
        "is"@,
        "ja"@,
        "la"@,
        "ro"@,
        "ru"@,
        "vi"@,
        "zh"@,
    ]
}

/// The messages of the placeholder data, in the order of their names.
pub open spec fn placeholder_messages() -> Seq<Seq<char>> {
    seq![
        "ওহে বিশ্ব"@,
        "Ahoj světe"@,
        "Hallo Welt"@,
        "Καλημέρα κόσμε"@,
        "Hello World"@,
        "Saluton, Mondo"@,
        "سلام دنیا‎"@,
        "hei maailma"@,
        "Halló, heimur"@,
        "こんにちは世界"@,
        "Ave, munde"@,
        "Salut,lume!"@,
        "Привет, мир"@,
        "Xin chào thế giới"@,
        "你好世界"@,
    ]
}

/// The placeholder data: each locale with its message.
pub open spec fn placeholder_table() -> Seq<(LanguageIdentifier, Seq<char>)> {
    Seq::new(15, |i: int| (cldr_locale_spec(placeholder_names()[i]).unwrap(), placeholder_messages()[i]))
}

/// The text of an optional message.
pub open spec fn message_of(h: Option<HelloWorldV1>) -> Option<Seq<char>> {
    match h {
        Some(m) => Some(m.message@),
        None => None,
    }
}

proof fn lemma_messages_of(
    s: Seq<(LanguageIdentifier, HelloWorldV1)>,
    t: Seq<(LanguageIdentifier, Seq<char>)>,
)
    requires
        s.len() == t.len(),
        forall|i: int| 0 <= i < s.len() ==> s[i].0 == t[i].0 && s[i].1.message@ == t[i].1,
    ensures
        forall|l: LanguageIdentifier| message_of(last_value(s, l)) == last_value(t, l),
    decreases s.len(),
{
    if s.len() > 0 {
        assert forall|i: int| 0 <= i < s.len() - 1 implies s.drop_last()[i].0 == t.drop_last()[i].0
            && s.drop_last()[i].1.message@ == t.drop_last()[i].1 by {
            assert(s.drop_last()[i] == s[i] && t.drop_last()[i] == t[i]);
        }
        lemma_messages_of(s.drop_last(), t.drop_last());
        assert(s.last() == s[s.len() - 1] && t.last() == t[t.len() - 1]);
        assert forall|l: LanguageIdentifier| message_of(last_value(s, l)) == last_value(t, l) by {
            if s.last().0 == l {
                assert(last_value(s, l) == Some(s.last().1));
                assert(last_value(t, l) == Some(t.last().1));
            } else {
                assert(last_value(s, l) == last_value(s.drop_last(), l));
                assert(last_value(t, l) == last_value(t.drop_last(), l));
            }
        }
    }
}

/// Every placeholder name is a locale.
proof fn lemma_placeholder_names()
    ensures
        forall|i: int| 0 <= i < 15 ==> (#[trigger] cldr_locale_spec(placeholder_names()[i])) is Some,
{
    reveal_strlit("bn");
    lemma_two_letter_locale("bn"@);
    reveal_strlit("cs");
    lemma_two_letter_locale("cs"@);
    reveal_strlit("de");
    lemma_two_letter_locale("de"@);
    reveal_strlit("el");
    lemma_two_letter_locale("el"@);
    reveal_strlit("en");
    lemma_two_letter_locale("en"@);
    reveal_strlit("eo");
    lemma_two_letter_locale("eo"@);
    reveal_strlit("fa");
    lemma_two_letter_locale("fa"@);
    reveal_strlit("fi");
    lemma_two_letter_locale("fi"@);
    reveal_strlit("is");
    lemma_two_letter_locale("is"@);
    reveal_strlit("ja");
    lemma_two_letter_locale("ja"@);
    reveal_strlit("la");
    lemma_two_letter_locale("la"@);
    reveal_strlit("ro");
    lemma_two_letter_locale("ro"@);
    reveal_strlit("ru");
    lemma_two_letter_locale("ru"@);
    reveal_strlit("vi");
    lemma_two_letter_locale("vi"@);
    reveal_strlit("zh");
    lemma_two_letter_locale("zh"@);
    assert(placeholder_names().len() == 15);
}

/// Appends the pair (`name`, `message`).
fn add_message(raw: &mut Vec<(String, HelloWorldV1)>, name: &str, message: &str)
    ensures
        final(raw)@.len() == old(raw)@.len() + 1,
        forall|i: int| 0 <= i < old(raw)@.len() ==> final(raw)@[i] == old(raw)@[i],
        final(raw)@.last().0@ == name@,
        final(raw)@.last().1.message@ == message@,
{
    raw.push((String::from_str(name), HelloWorldV1 { message: String::from_str(message) }));
}

/// "Hello World" messages by locale. Mostly useful for testing.
#[derive(Debug)]
pub struct HelloWorldProvider {
    pub map: ZeroMap<LanguageIdentifier, HelloWorldV1>,
}

impl HelloWorldProvider {
    pub open spec fn wf(&self) -> bool {
        self.map.wf()
    }

    /// The provider of the (locale name, message) pairs `raw`, in any order.
    pub fn from_messages(raw: Vec<(String, HelloWorldV1)>) -> (r: Result<HelloWorldProvider, DataError>)
        ensures
            r is Ok <==> all_locales_valid(raw@),
            r matches Ok(p) ==> table_matches(p.map, raw@),
    {
        Ok(HelloWorldProvider { map: locale_table(raw)? })
    }

    /// A provider with "Hello World" in fifteen languages.
    pub fn new_with_placeholder_data() -> (r: HelloWorldProvider)
        ensures
            r.wf(),
            forall|l: LanguageIdentifier| message_of(r.map.lookup(l)) == last_value(
                placeholder_table(),
                l,
            ),
    {
        let mut raw: Vec<(String, HelloWorldV1)> = Vec::new();
        add_message(&mut raw, "bn", "ওহে বিশ্ব");
        add_message(&mut raw, "cs", "Ahoj světe");
        add_message(&mut raw, "de", "Hallo Welt");
        add_message(&mut raw, "el", "Καλημέρα κόσμε");
        add_message(&mut raw, "en", "Hello World");
        add_message(&mut raw, "eo", "Saluton, Mondo");
        add_message(&mut raw, "fa", "سلام دنیا‎");
        add_message(&mut raw, "fi", "hei maailma");
        add_message(&mut raw, "is", "Halló, heimur");
        add_message(&mut raw, "ja", "こんにちは世界");
        add_message(&mut raw, "la", "Ave, munde");
        add_message(&mut raw, "ro", "Salut,lume!");
        add_message(&mut raw, "ru", "Привет, мир");
        add_message(&mut raw, "vi", "Xin chào thế giới");
        add_message(&mut raw, "zh", "你好世界");
        proof {
            lemma_placeholder_names();
            assert(raw@.len() == 15);
            assert forall|i: int| 0 <= i < 15 implies raw@[i].0@ == placeholder_names()[i]
                && raw@[i].1.message@ == placeholder_messages()[i] by {}
            assert forall|i: int| 0 <= i < 15 implies (#[trigger] cldr_locale_spec(raw@[i].0@)) is Some by {
                assert(raw@[i].0@ == placeholder_names()[i]);
            }
            assert(all_locales_valid(raw@));
        }
        match Self::from_messages(raw) {
            Ok(p) => {
                proof {
                    lemma_messages_of(with_locales(raw@), placeholder_table());
                }
                p
            },
            Err(_) => {
                proof {
                    assert(false);
                }
                HelloWorldProvider { map: ZeroMap::new() }
            },
        }
    }

    /// What a load of `req` returns.
    pub open spec fn load_post<'a>(&'a self, req: Request, r: Result<Response<'a>, DataError>) -> bool {
        if !is_hello_world_key(req.key) {
            r == Err::<Response<'a>, DataError>(hello_world_mismatch(req.key))
        } else {
            match self.map.lookup(req.locale.langid) {
                None => r == Err::<Response<'a>, DataError>(DataError::UnavailableEntry(req)),
                Some(v) => match r {
                    Ok(resp) => resp.metadata.data_langid == Some(req.locale.langid)
                        && match resp.payload {
                        Some(ErasedPayload::HelloWorldV1(DataPayload::Borrowed(b))) => *b == v,
                        _ => false,
                    },
                    Err(_) => false,
                },
            }
        }
    }

    /// The message of the requested locale, borrowed from the provider.
    pub fn load<'a>(&'a self, req: &Request) -> (r: Result<Response<'a>, DataError>)
        requires
            self.wf(),
        ensures
            self.load_post(*req, r),
    {
        match_hello_world_key(&req.key)?;
        match self.map.get(&req.locale.langid) {
            Some(v) => Ok(
                ResponseBuilder { data_langid: Some(req.locale.langid) }.with_borrowed_payload(v),
            ),
            None => Err(DataError::UnavailableEntry(req.duplicate())),
        }
    }

    /// The locales that have a message, in ascending order.
    pub fn supported_options_for_key(&self, key: &ResourceKey) -> (r: Result<
        Vec<LocaleSelector>,
        DataError,
    >)
        requires
            self.wf(),
        ensures
            !is_hello_world_key(*key) ==> r == Err::<Vec<LocaleSelector>, DataError>(
                hello_world_mismatch(*key),
            ),
            is_hello_world_key(*key) ==> (r matches Ok(v) && selectors_of(v@, self.map)),
    {
        match_hello_world_key(key)?;
        Ok(selectors_for(&self.map))
    }

    /// Stores the message of an erased payload under the request's locale.
    pub fn put_payload(&mut self, req: &Request, payload: &ErasedPayload) -> (r: Result<(), DataError>)
        requires
            old(self).wf(),
        ensures
            final(self).wf(),
            r is Ok <==> is_hello_world_key(req.key) && payload.type_id_spec()
                == HelloWorldV1::type_id_spec(),
            r is Ok ==> (payload matches ErasedPayload::HelloWorldV1(p) && (final(self).map.lookup(
                req.locale.langid,
            ) matches Some(h) && h.message@ == p.value().message@)) && forall|l: LanguageIdentifier|
                l != req.locale.langid ==> final(self).map.lookup(l) == old(self).map.lookup(l),
            r is Err ==> final(self).map.lookup(req.locale.langid) == old(self).map.lookup(
                req.locale.langid,
            ) && forall|l: LanguageIdentifier| final(self).map.lookup(l) == old(self).map.lookup(l),
    {
        match_hello_world_key(&req.key)?;
        let data = HelloWorldV1::downcast_ref(payload)?;
        let _ = self.map.insert(req.locale.langid, HelloWorldV1 { message: data.message.clone() });
        Ok(())
    }
}

} // verus!
