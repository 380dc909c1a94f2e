//! AL snippets among the completions that the editor is offered.

use crate::json::{no_members, number_tree, trees, Json, JsonObject, JsonTree};
use crate::text::{decimal, join, joined, texts};
use vstd::prelude::*;
use vstd::string::*;

verus! {

/// The kind of a completion that is a snippet.
pub const KIND_SNIPPET: u8 = 15;

/// The format of a text to insert that is a snippet.
pub const INSERT_TEXT_FORMAT_SNIPPET: u8 = 2;

/// The body of a snippet.
#[derive(Debug)]
pub enum BodyShape {
    /// One string for each line.
    Lines(Vec<String>),
    /// A single string.
    OneLine(String),
}

impl BodyShape {
    /// The text of the body.
    pub open spec fn text(self) -> Seq<char> {
        match self {
            BodyShape::Lines(v) => joined(texts(v@), "\n"@),
            BodyShape::OneLine(s) => s@,
        }
    }

    /// The text of the body.
    pub fn joined(&self) -> (r: String)
        ensures
            r@ == self.text(),
    {
        match self {
            BodyShape::Lines(v) => join(v, "\n"),
            BodyShape::OneLine(s) => s.clone(),
        }
    }
}

/// A snippet as it is written down.
#[derive(Debug)]
pub struct RawSnippet {
    /// What the user types to get it.
    pub prefix: String,
    pub body: BodyShape,
    pub description: Option<String>,
}

/// A snippet with its name as mathematics.
pub ghost struct SnippetModel {
    pub name: Seq<char>,
    pub prefix: Seq<char>,
    pub body: Seq<char>,
    pub description: Option<Seq<char>>,
}

/// A named snippet as mathematics.
pub open spec fn snippet_model(name: Seq<char>, snippet: RawSnippet) -> SnippetModel {
    SnippetModel {
        name,
        prefix: snippet.prefix@,
        body: snippet.body.text(),
        description: match snippet.description {
            Some(d) => Some(d@),
            None => None,
        },
    }
}

/// The completion for a snippet. Its sort text puts it before what the AL server offers;
/// without a description it is described by its name.
pub open spec fn completion_item(s: SnippetModel) -> JsonTree {
    JsonTree::Object(
        no_members().insert("label"@, JsonTree::Str(s.prefix)).insert(
            "kind"@,
            number_tree(KIND_SNIPPET as nat),
        ).insert(
            "detail"@,
            JsonTree::Str(
                match s.description {
                    Some(d) => d,
                    None => s.name,
                },
            ),
        ).insert("insertText"@, JsonTree::Str(s.body)).insert(
            "insertTextFormat"@,
            number_tree(INSERT_TEXT_FORMAT_SNIPPET as nat),
        ).insert("filterText"@, JsonTree::Str(s.prefix)).insert(
            "sortText"@,
            JsonTree::Str("0_"@ + s.prefix),
        ).insert(
            "documentation"@,
            JsonTree::Object(
                no_members().insert("kind"@, JsonTree::Str("markdown"@)).insert(
                    "value"@,
                    JsonTree::Str("```al\n"@ + s.body + "\n```"@),
                ),
            ),
        ),
    )
}

/// The completions for named snippets, in their order.
pub open spec fn items_of(snippets: Seq<(String, RawSnippet)>) -> Seq<JsonTree> {
    Seq::new(
        snippets.len(),
        |i: int| completion_item(snippet_model(snippets[i].0@, snippets[i].1)),
    )
}

/// Builds the completion for a snippet.
pub fn build_item(name: &str, snippet: &RawSnippet) -> (r: Json)
    ensures
        r@ == completion_item(snippet_model(name@, *snippet)),
{
    let body: String = snippet.body.joined();
    let detail: &str = match &snippet.description {
        Some(d) => d.as_str(),
        None => name,
    };
    let mut sort_text: String = "0_".to_owned();
    sort_text.append(snippet.prefix.as_str());
    let mut shown: String = "```al\n".to_owned();
    shown.append(body.as_str());
    shown.append("\n```");
    Json::Object(
        JsonObject::new().with("label", Json::string(snippet.prefix.as_str())).with(
            "kind",
            Json::number(KIND_SNIPPET as u64),
        ).with("detail", Json::string(detail)).with("insertText", Json::string(body.as_str())).with(
            "insertTextFormat",
            Json::number(INSERT_TEXT_FORMAT_SNIPPET as u64),
        ).with("filterText", Json::string(snippet.prefix.as_str())).with(
            "sortText",
            Json::Str(sort_text),
        ).with(
            "documentation",
            Json::Object(
                JsonObject::new().with("kind", Json::string("markdown")).with(
                    "value",
                    Json::Str(shown),
                ),
            ),
        ),
    )
}

/// Builds the completions for named snippets, in their order.
pub fn build_items(snippets: &Vec<(String, RawSnippet)>) -> (r: Vec<Json>)
    ensures
        trees(r@) == items_of(snippets@),
{
    let mut out: Vec<Json> = Vec::new();
    let mut i: usize = 0;
    while i < snippets.len()
        invariant
            i <= snippets@.len(),
            out@.len() == i,
            forall|j: int| 0 <= j < i ==> (#[trigger] out@[j])@ == items_of(snippets@)[j],
        decreases snippets@.len() - i,
    {
        let item: Json = build_item(snippets[i].0.as_str(), &snippets[i].1);
        out.push(item);
        i += 1;
    }
    assert(trees(out@) =~= items_of(snippets@));
    out
}

/// The completions for the snippets that the bridge ships, where they could be read: with
/// snippets that could not be read there are none.
pub fn completion_items(shipped: Option<&Vec<(String, RawSnippet)>>) -> (r: Vec<Json>)
    ensures
        match shipped {
            Some(snippets) => trees(r@) == items_of(snippets@),
            None => r@.len() == 0,
        },
{
    match shipped {
        Some(snippets) => build_items(snippets),
        None => Vec::new(),
    }
}

/// The completions that the AL server offers: none, an array of them, or a list object
/// that holds such an array. Of any other result there is nothing to say.
pub open spec fn offered(result: JsonTree) -> Option<Seq<JsonTree>> {
    match result {
        JsonTree::Null => Some(Seq::empty()),
        JsonTree::Array(a) => Some(a),
        JsonTree::Object(_) => match result.get("items"@) {
            Some(JsonTree::Array(a)) => Some(a),
            _ => Some(Seq::empty()),
        },
        _ => None,
    }
}

/// The list object of completions.
pub open spec fn completion_list(items: Seq<JsonTree>) -> JsonTree {
    JsonTree::Object(
        no_members().insert("isIncomplete"@, JsonTree::Bool(false)).insert(
            "items"@,
            JsonTree::Array(items),
        ),
    )
}

/// An answer to a completion request with snippets put before what the AL server offers.
/// It stays as it is where there are no snippets, or it has no result that offers
/// completions.
pub open spec fn injected(snippets: Seq<JsonTree>, response: JsonTree) -> JsonTree {
    match response {
        JsonTree::Object(m) => if snippets.len() > 0 && m.contains_key("result"@) {
            match offered(m["result"@]) {
                Some(items) => JsonTree::Object(
                    m.insert("result"@, completion_list(snippets + items)),
                ),
                None => response,
            }
        } else {
            response
        },
        _ => response,
    }
}

/// Copies values behind those that are there.
fn append_copies(out: &mut Vec<Json>, items: &Vec<Json>)
    ensures
        trees(final(out)@) == trees(old(out)@) + trees(items@),
{
    let ghost before = trees(out@);
    let mut i: usize = 0;
    assert(trees(out@) =~= before + trees(items@).take(0));
    while i < items.len()
        invariant
            i <= items@.len(),
            trees(out@) == before + trees(items@).take(i as int),
        decreases items@.len() - i,
    {
        let ghost so_far = trees(out@);
        let item: Json = items[i].copy();
        out.push(item);
        assert(trees(out@) =~= so_far.push(trees(items@)[i as int]));
        i += 1;
        assert(before + trees(items@).take(i as int) =~= so_far.push(trees(items@)[i - 1]));
    }
    assert(trees(items@).take(i as int) =~= trees(items@));
}

/// Puts snippets before what an answer to a completion request offers.
pub fn inject_into_completion(snippets: &Vec<Json>, response: &Json) -> (r: Json)
    ensures
        r@ == injected(trees(snippets@), response@),
{
    if snippets.len() == 0 {
        return response.copy();
    }
    let result: &Json = match response.get("result") {
        Some(result) => result,
        None => {
            return response.copy();
        },
    };
    let nothing: Vec<Json> = Vec::new();
    let existing: &Vec<Json> = match result {
        Json::Null => &nothing,
        Json::Array(a) => {
            proof {
                Json::lemma_array(*a);
            }
            a
        },
        Json::Object(_) => match result.get("items") {
            Some(items) => match items.as_array() {
                Some(a) => a,
                None => &nothing,
            },
            None => &nothing,
        },
        _ => {
            return response.copy();
        },
    };
    assert(trees(nothing@) =~= Seq::empty());
    assert(offered(result@) == Some(trees(existing@)));
    let mut merged: Vec<Json> = Vec::new();
    assert(trees(merged@) =~= Seq::empty());
    append_copies(&mut merged, snippets);
    append_copies(&mut merged, existing);
    assert(trees(merged@) =~= trees(snippets@) + trees(existing@));
    let list: Json = Json::Object(
        JsonObject::new().with("isIncomplete", Json::Bool(false)).with(
            "items",
            Json::array(merged),
        ),
    );
    match response.copy() {
        Json::Object(o) => Json::Object(o.with("result", list)),
        other => other,
    }
}

/// What the AL server offers is all still there, in its order, behind the snippets, in one
/// list that counts as complete; the rest of the answer is what it was.
pub proof fn law_offers_are_kept(
    snippets: Seq<JsonTree>,
    response: JsonTree,
    items: Seq<JsonTree>,
    key: Seq<char>,
)
    requires
        snippets.len() > 0,
        response.get("result"@) matches Some(result) && offered(result) == Some(items),
    ensures
        injected(snippets, response).get("result"@) == Some(completion_list(snippets + items)),
        offered(completion_list(snippets + items)) == Some(snippets + items),
        completion_list(snippets + items).get("isIncomplete"@) == Some(JsonTree::Bool(false)),
        key != "result"@ ==> injected(snippets, response).get(key) == response.get(key),
{
    reveal_strlit("isIncomplete");
    reveal_strlit("items");
    assert("isIncomplete"@.len() != "items"@.len());
}

/// Without snippets an answer stays as it is; so does one without a result, such as an
/// error, and one whose result offers no completions.
pub proof fn law_other_answers_are_unchanged(snippets: Seq<JsonTree>, response: JsonTree)
    requires
        ({
            ||| snippets.len() == 0
            ||| match response.get("result"@) {
                Some(result) => offered(result) is None,
                None => true,
            }
        }),
    ensures
        injected(snippets, response) == response,
{
}

/// The completion for a snippet: what the user types finds it and labels it, its body is
/// inserted as it is and shown as AL code, and it is described by its description or else
/// its name.
pub proof fn law_completions_are_their_snippets(s: SnippetModel, key: Seq<char>)
    ensures
        ({
            let item = completion_item(s);
            &&& item is Object
            &&& item.get("label"@) == Some(JsonTree::Str(s.prefix))
            &&& item.get("kind"@) == Some(JsonTree::Number(decimal(15)))
            &&& s.description matches Some(d) ==> item.get("detail"@) == Some(JsonTree::Str(d))
            &&& s.description is None ==> item.get("detail"@) == Some(JsonTree::Str(s.name))
            &&& item.get("insertText"@) == Some(JsonTree::Str(s.body))
            &&& item.get("insertTextFormat"@) == Some(JsonTree::Number(decimal(2)))
            &&& item.get("filterText"@) == Some(JsonTree::Str(s.prefix))
            &&& item.get("sortText"@) == Some(JsonTree::Str("0_"@ + s.prefix))
            &&& item.get("documentation"@) matches Some(shown)
            &&& shown is Object
            &&& shown.get("kind"@) == Some(JsonTree::Str("markdown"@))
            &&& shown.get("value"@) == Some(JsonTree::Str("```al\n"@ + s.body + "\n```"@))
            &&& shown.get(key) is Some ==> key == "kind"@ || key == "value"@
            &&& item.get(key) is Some ==> {
                ||| key == "label"@
                ||| key == "kind"@
                ||| key == "detail"@
                ||| key == "insertText"@
                ||| key == "insertTextFormat"@
                ||| key == "filterText"@
                ||| key == "sortText"@
                ||| key == "documentation"@
            }
        }),
{
    reveal_strlit("label");
    reveal_strlit("kind");
    reveal_strlit("detail");
    reveal_strlit("insertText");
    reveal_strlit("insertTextFormat");
    reveal_strlit("filterText");
    reveal_strlit("sortText");
    reveal_strlit("documentation");
    reveal_strlit("value");
    assert("label"@.len() == 5 && "kind"@.len() == 4 && "detail"@.len() == 6);
    assert("insertText"@.len() == 10 && "insertTextFormat"@.len() == 16);
    assert("filterText"@.len() == 10 && "sortText"@.len() == 8 && "documentation"@.len() == 13);
    assert("insertText"@[0] == 'i' && "filterText"@[0] == 'f');
    assert("value"@.len() == 5);
}

/// A snippet is its name, its prefix, its body and its description, as they are; the lines
/// of a body are joined by line feeds.
pub proof fn law_snippets_are_what_is_written(name: Seq<char>, snippet: RawSnippet)
    ensures
        ({
            let s = snippet_model(name, snippet);
            &&& s.name == name
            &&& s.prefix == snippet.prefix@
            &&& s.body == snippet.body.text()
            &&& snippet.description matches Some(d) ==> s.description == Some(d@)
            &&& snippet.description is None ==> s.description is None
            &&& snippet.body matches BodyShape::OneLine(text) ==> s.body == text@
            &&& snippet.body matches BodyShape::Lines(lines) ==> s.body == joined(
                texts(lines@),
                seq!['\n'],
            )
        }),
{
    reveal_strlit("\n");
    assert("\n"@ =~= seq!['\n']);
}

/// There is one completion for each snippet, in the order of the snippets.
pub proof fn law_each_snippet_has_its_completion(snippets: Seq<(String, RawSnippet)>, i: int)
    requires
        0 <= i < snippets.len(),
    ensures
        items_of(snippets).len() == snippets.len(),
        items_of(snippets)[i] == completion_item(snippet_model(snippets[i].0@, snippets[i].1)),
{
}

/// What the AL server offers: nothing with `null`, the elements of an array, or those of the
/// array that an object has for its `items`; anything else is no offer.
pub proof fn law_offers_are_arrays(result: JsonTree, items: Seq<JsonTree>)
    ensures
        offered(JsonTree::Null) == Some(Seq::<JsonTree>::empty()),
        offered(JsonTree::Array(items)) == Some(items),
        result is Object && result.get("items"@) == Some(JsonTree::Array(items)) ==> offered(result)
            == Some(items),
        result is Object && !(result.get("items"@) matches Some(JsonTree::Array(_))) ==> offered(
            result,
        ) == Some(Seq::<JsonTree>::empty()),
        result is Bool || result is Number || result is Str ==> offered(result) is None,
{
}

/// An answer to a completion request, in full: with snippets and an offer its result is one
/// list, the snippets before the offer, each as it is; else the answer is as it was.
pub proof fn law_snippets_come_first(
    snippets: Seq<JsonTree>,
    members: Map<Seq<char>, JsonTree>,
    items: Seq<JsonTree>,
    key: Seq<char>,
)
    ensures
        ({
            let answer = JsonTree::Object(members);
            let merged = injected(snippets, answer);
            let offers = members.contains_key("result"@) && {
                ||| members["result"@] == JsonTree::Array(items)
                ||| members["result"@] is Null && items.len() == 0
                ||| members["result"@] is Object && members["result"@].get("items"@) == Some(
                    JsonTree::Array(items),
                )
                ||| members["result"@] is Object && items.len() == 0 && !(members["result"@].get(
                    "items"@,
                ) matches Some(JsonTree::Array(_)))
            };
            &&& snippets.len() > 0 && offers ==> {
                &&& merged.get("result"@) matches Some(list)
                &&& list is Object
                &&& list.get("isIncomplete"@) == Some(JsonTree::Bool(false))
                &&& list.get("items"@) == Some(JsonTree::Array(snippets + items))
                &&& list.get(key) is Some ==> key == "isIncomplete"@ || key == "items"@
            }
            &&& key != "result"@ ==> merged.get(key) == answer.get(key)
            &&& snippets.len() == 0 || !members.contains_key("result"@) ==> merged == answer
            &&& members.contains_key("result"@) && (members["result"@] is Bool
                || members["result"@] is Number || members["result"@] is Str) ==> merged == answer
        }),
{
    reveal_strlit("isIncomplete");
    reveal_strlit("items");
    assert("isIncomplete"@.len() != "items"@.len());
    if items.len() == 0 {
        assert(items =~= Seq::empty());
    }
}

/// An answer that is no object is as it was.
pub proof fn law_answers_are_objects(snippets: Seq<JsonTree>, answer: JsonTree)
    requires
        !(answer is Object),
    ensures
        injected(snippets, answer) == answer,
{
}

} // verus!
