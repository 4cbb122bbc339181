//! The secrets that jobs get, and where they come from.

use vstd::prelude::*;
use crate::failure::{Failure, FailureView, caused_failure};
use crate::text::{concat2, opt_text, texts};

verus! {

/// A secret: its name and its value.
pub struct Secret {
    pub key: String,
    pub value: String,
}

/// The texts of a secret.
pub type SecretView = (Seq<char>, Seq<char>);

impl View for Secret {
    type V = (Seq<char>, Seq<char>);

    open spec fn view(&self) -> (Seq<char>, Seq<char>) {
        (self.key@, self.value@)
    }
}

/// The texts of a list of secrets.
pub open spec fn secrets_view(list: Seq<Secret>) -> Seq<SecretView> {
    list.map_values(|s: Secret| s@)
}

/// A text, or the reason why there is none.
pub type TextView = Result<Seq<char>, Seq<char>>;

/// The text of a string, or of the reason why there is none.
pub open spec fn text_view(text: Result<String, String>) -> TextView {
    match text {
        Ok(s) => Ok(s@),
        Err(cause) => Err(cause@),
    }
}

/// The texts of a list of values.
pub open spec fn values_view(values: Seq<Result<String, String>>) -> Seq<TextView> {
    values.map_values(|v: Result<String, String>| text_view(v))
}

/// The first name, from `from` on, that the environment has no value for.
pub open spec fn first_missing(values: Seq<TextView>, from: int) -> Option<int>
    decreases values.len() - from,
{
    if from >= values.len() {
        None
    } else if values[from] is Err {
        Some(from)
    } else {
        first_missing(values, from + 1)
    }
}

/// The secrets that these names and values make up.
pub open spec fn named_secrets(names: Seq<Seq<char>>, values: Seq<TextView>) -> Seq<SecretView> {
    Seq::new(names.len(), |i: int| (names[i], values[i]->Ok_0))
}

/// What is said of a secret that the environment does not have.
pub open spec fn missing_message(name: Seq<char>) -> Seq<char> {
    "Could not find secret in environment: "@ + name
}

/// What is said of the first secret that the environment does not have, where one is missing.
pub open spec fn environment_trouble(names: Seq<Seq<char>>, values: Seq<TextView>) -> Option<
    FailureView,
> {
    match first_missing(values, 0) {
        Some(i) => Some(caused_failure(missing_message(names[i]), values[i]->Err_0)),
        None => None,
    }
}

/// The entries of a list that could be read.
pub open spec fn readable(entries: Seq<Option<SecretView>>) -> Seq<SecretView>
    decreases entries.len(),
{
    if entries.len() == 0 {
        Seq::empty()
    } else {
        match entries.last() {
            Some(s) => readable(entries.drop_last()).push(s),
            None => readable(entries.drop_last()),
        }
    }
}

/// The texts of a list of entries.
pub open spec fn entries_view(entries: Seq<Option<Secret>>) -> Seq<Option<SecretView>> {
    entries.map_values(
        |e: Option<Secret>|
            match e {
                Some(s) => Some(s@),
                None => None,
            },
    )
}

/// A secret added at the end of a list.
proof fn lemma_secrets_push(list: Seq<Secret>, s: Secret)
    ensures
        secrets_view(list.push(s)) == secrets_view(list).push(s@),
{
    assert(secrets_view(list.push(s)) =~= secrets_view(list).push(s@));
}

/// Where the entries of a `.env` file come from.
pub enum DotenvSource {
    /// From nowhere.
    Off,
    /// From the file that the user named, which must be readable.
    Named,
    /// From the first `.env` from the current directory up, if one can be read.
    Nearest,
}

/// Where the entries of a `.env` file come from, by the options of the command line.
pub open spec fn source_of(no_dotenv: bool, named: bool) -> DotenvSource {
    if no_dotenv {
        DotenvSource::Off
    } else if named {
        DotenvSource::Named
    } else {
        DotenvSource::Nearest
    }
}

/// Where the entries of a `.env` file come from, by the options of the command line.
pub fn dotenv_source(no_dotenv: bool, named: bool) -> (source: DotenvSource)
    ensures
        source == source_of(no_dotenv, named),
        source is Off <==> no_dotenv,
        source is Named <==> !no_dotenv && named,
        source is Nearest <==> !no_dotenv && !named,
{
    if no_dotenv {
        DotenvSource::Off
    } else if named {
        DotenvSource::Named
    } else {
        DotenvSource::Nearest
    }
}

/// What goes wrong with a file of secrets.
pub enum SecretFile {
    /// A `.env` file cannot be loaded.
    DotenvUnreadable,
    /// A JSON file cannot be loaded.
    JsonUnreadable,
    /// A JSON file holds no map from names to values.
    JsonUnparsable,
}

/// What is said of a file of secrets that is of no use.
pub open spec fn secret_file_message(trouble: SecretFile, path: Seq<char>) -> Seq<char> {
    match trouble {
        SecretFile::DotenvUnreadable => "Could not load dotenv file: "@ + path,
        SecretFile::JsonUnreadable => "Could not load secrets json file: "@ + path,
        SecretFile::JsonUnparsable => "Could not parse secrets json file: "@ + path,
    }
}

impl SecretFile {
    /// What is said of the file at `path`.
    pub fn message(&self, path: &str) -> (s: String)
        ensures
            s@ == secret_file_message(*self, path@),
    {
        match self {
            SecretFile::DotenvUnreadable => concat2("Could not load dotenv file: ", path),
            SecretFile::JsonUnreadable => concat2("Could not load secrets json file: ", path),
            SecretFile::JsonUnparsable => concat2("Could not parse secrets json file: ", path),
        }
    }
}

/// The secrets that the user asked for by name, with the values that the environment has for them.
/// The first one that it has none for is an error, behind which stands the reason that the
/// environment gives.
pub fn environment_secrets(names: &Vec<String>, values: &Vec<Result<String, String>>) -> (found:
    Result<Vec<Secret>, Failure>)
    requires
        names@.len() == values@.len(),
    ensures
        match environment_trouble(texts(names@), values_view(values@)) {
            Some(failure) => found matches Err(e) && e@ == failure,
            None => found matches Ok(list) && secrets_view(list@) == named_secrets(
                texts(names@),
                values_view(values@),
            ),
        },
{
    let mut out: Vec<Secret> = Vec::new();
    let mut i: usize = 0;
    let ghost all = named_secrets(texts(names@), values_view(values@));
    while i < names.len()
        invariant
            i <= names@.len() == values@.len(),
            all == named_secrets(texts(names@), values_view(values@)),
            secrets_view(out@) == all.take(i as int),
            first_missing(values_view(values@), 0) == first_missing(values_view(values@), i as int),
        decreases names@.len() - i,
    {
        assert(values_view(values@)[i as int] == text_view(values@[i as int]));
        assert(texts(names@)[i as int] == names@[i as int]@);
        match &values[i] {
            Ok(value) => {
                let secret = Secret { key: names[i].clone(), value: value.clone() };
                proof {
                    lemma_secrets_push(out@, secret);
                    assert(all.take(i + 1) =~= all.take(i as int).push(all[i as int]));
                }
                out.push(secret);
            },
            Err(cause) => {
                return Err(
                    Failure::caused(
                        concat2("Could not find secret in environment: ", names[i].as_str()),
                        cause.clone(),
                    ),
                );
            },
        }
        i += 1;
    }
    assert(all.take(names@.len() as int) =~= all);
    Ok(out)
}

/// What the attempt to open a `.env` file came to: its entries, or the reason why there are none.
pub open spec fn opened_view(opened: Result<Vec<Option<Secret>>, String>) -> Result<
    Seq<Option<SecretView>>,
    Seq<char>,
> {
    match opened {
        Ok(entries) => Ok(entries_view(entries@)),
        Err(cause) => Err(cause@),
    }
}

/// What is said of a `.env` file that must be opened and cannot be; nothing of any other.
pub open spec fn dotenv_trouble(
    source: DotenvSource,
    path: Seq<char>,
    opened: Result<Seq<Option<SecretView>>, Seq<char>>,
) -> Option<FailureView> {
    match (source, opened) {
        (DotenvSource::Named, Err(cause)) => Some(
            caused_failure(secret_file_message(SecretFile::DotenvUnreadable, path), cause),
        ),
        _ => None,
    }
}

/// The entries that a `.env` file adds: none where none is wanted, or where none could be opened.
pub open spec fn dotenv_list(
    source: DotenvSource,
    opened: Result<Seq<Option<SecretView>>, Seq<char>>,
) -> Seq<Option<SecretView>> {
    match (source, opened) {
        (DotenvSource::Off, _) => Seq::empty(),
        (_, Ok(entries)) => entries,
        (_, Err(_)) => Seq::empty(),
    }
}

/// The entries that a `.env` file adds, by what the attempt to open it came to. Only a file that the
/// user named, at `path`, has to be there.
pub fn dotenv_entries(
    source: &DotenvSource,
    path: &str,
    opened: Result<Vec<Option<Secret>>, String>,
) -> (entries: Result<Vec<Option<Secret>>, Failure>)
    ensures
        match dotenv_trouble(*source, path@, opened_view(opened)) {
            Some(failure) => entries matches Err(e) && e@ == failure,
            None => entries matches Ok(list) && entries_view(list@) == dotenv_list(
                *source,
                opened_view(opened),
            ),
        },
{
    let none: Vec<Option<Secret>> = Vec::new();
    assert(entries_view(none@) =~= Seq::empty());
    match (source, opened) {
        (DotenvSource::Off, _) => Ok(none),
        (_, Ok(list)) => Ok(list),
        (DotenvSource::Named, Err(cause)) => Err(
            Failure::caused(SecretFile::DotenvUnreadable.message(path), cause),
        ),
        (DotenvSource::Nearest, Err(_)) => Ok(none),
    }
}

/// The names and values that a JSON text maps: what `from_str` of serde_json gives for a map of
/// strings, or the message of the error.
pub uninterp spec fn json_pairs(text: Seq<char>) -> Result<Map<Seq<char>, Seq<char>>, Seq<char>>;

/// The secrets of the list are those of the map, each once, in any order.
pub open spec fn lists_pairs(map: Map<Seq<char>, Seq<char>>, list: Seq<SecretView>) -> bool {
    &&& forall|i: int|
        0 <= i < list.len() ==> map.contains_key((#[trigger] list[i]).0) && map[list[i].0]
            == list[i].1
    &&& forall|a: int, b: int|
        0 <= a < b < list.len() ==> (#[trigger] list[a]).0 != (#[trigger] list[b]).0
    &&& forall|key: Seq<char>| #[trigger]
        map.contains_key(key) ==> exists|i: int| 0 <= i < list.len() && (#[trigger] list[i]).0 == key
}

/// `serde_json::from_str` into a map of ahash from strings to strings, which is then walked: a
/// secret for each entry of the map, in an order of which nothing is said, or the text of the error
/// where the text is no JSON object of strings. The map is a function of the text; which texts it
/// takes is not said.
#[verifier::external_body]
fn json_string_map(text: &str) -> (found: Result<Vec<Secret>, String>)
    ensures
        match json_pairs(text@) {
            Ok(map) => found matches Ok(list) && lists_pairs(map, secrets_view(list@)),
            Err(cause) => found matches Err(s) && s@ == cause,
        },
{
    match serde_json::from_str::<ahash::HashMap<String, String>>(text) {
        Ok(map) => Ok(map.into_iter().map(|(key, value)| Secret { key, value }).collect()),
        Err(error) => Err(error.to_string()),
    }
}

/// A JSON file of secrets: where it is, and its text or the reason why it cannot be read.
pub struct JsonFile {
    pub path: String,
    pub text: Result<String, String>,
}

/// The texts of a JSON file.
pub struct JsonFileView {
    pub path: Seq<char>,
    pub text: TextView,
}

impl View for JsonFile {
    type V = JsonFileView;

    open spec fn view(&self) -> JsonFileView {
        JsonFileView { path: self.path@, text: text_view(self.text) }
    }
}

/// What is said of a JSON file that cannot be read, or that holds no names and values.
pub open spec fn json_trouble(file: JsonFileView) -> Option<FailureView> {
    match file.text {
        Err(cause) => Some(
            caused_failure(secret_file_message(SecretFile::JsonUnreadable, file.path), cause),
        ),
        Ok(text) => match json_pairs(text) {
            Err(cause) => Some(
                caused_failure(secret_file_message(SecretFile::JsonUnparsable, file.path), cause),
            ),
            Ok(_) => None,
        },
    }
}

/// The secrets of a JSON file, by what became of its parse.
pub fn json_secrets_or_error(path: &str, parsed: Result<Vec<Secret>, String>) -> (r: Result<
    Vec<Secret>,
    Failure,
>)
    ensures
        match parsed {
            Ok(list) => r == Ok::<Vec<Secret>, Failure>(list),
            Err(cause) => r matches Err(e) && e@ == caused_failure(
                secret_file_message(SecretFile::JsonUnparsable, path@),
                cause@,
            ),
        },
{
    match parsed {
        Ok(list) => Ok(list),
        Err(cause) => Err(Failure::caused(SecretFile::JsonUnparsable.message(path), cause)),
    }
}

/// The secrets of a JSON file.
pub fn json_secrets(file: &JsonFile) -> (r: Result<Vec<Secret>, Failure>)
    ensures
        match json_trouble(file@) {
            Some(failure) => r matches Err(e) && e@ == failure,
            None => r matches Ok(list) && lists_pairs(
                json_pairs(file@.text->Ok_0)->Ok_0,
                secrets_view(list@),
            ),
        },
{
    match &file.text {
        Err(cause) => Err(
            Failure::caused(SecretFile::JsonUnreadable.message(file.path.as_str()), cause.clone()),
        ),
        Ok(text) => json_secrets_or_error(file.path.as_str(), json_string_map(text.as_str())),
    }
}

/// All secrets, in the order in which they are handed on: those from the environment, the entries
/// of the `.env` file that could be read, and those of the JSON file.
pub fn all_secrets(
    environment: Vec<Secret>,
    dotenv: Vec<Option<Secret>>,
    json: Vec<Secret>,
) -> (all: Vec<Secret>)
    ensures
        secrets_view(all@) == secrets_view(environment@) + readable(entries_view(dotenv@))
            + secrets_view(json@),
{
    let mut out = environment;
    let ghost first = secrets_view(environment@);
    let mut i: usize = 0;
    assert(first + readable(entries_view(dotenv@).take(0)) =~= first);
    while i < dotenv.len()
        invariant
            i <= dotenv@.len(),
            secrets_view(out@) == first + readable(entries_view(dotenv@).take(i as int)),
        decreases dotenv@.len() - i,
    {
        let ghost seen = entries_view(dotenv@).take(i + 1);
        proof {
            assert(seen.drop_last() =~= entries_view(dotenv@).take(i as int));
            assert(seen.last() == entries_view(dotenv@)[i as int]);
        }
        if let Some(entry) = &dotenv[i] {
            let secret = Secret { key: entry.key.clone(), value: entry.value.clone() };
            proof {
                lemma_secrets_push(out@, secret);
                assert(first + readable(seen.drop_last()).push(secret@) =~= (first + readable(
                    seen.drop_last(),
                )).push(secret@));
            }
            out.push(secret);
        }
        i += 1;
    }
    assert(entries_view(dotenv@).take(dotenv@.len() as int) =~= entries_view(dotenv@));
    let ghost second = secrets_view(out@);
    let mut j: usize = 0;
    assert(second + secrets_view(json@).take(0) =~= second);
    while j < json.len()
        invariant
            j <= json@.len(),
            secrets_view(out@) == second + secrets_view(json@).take(j as int),
        decreases json@.len() - j,
    {
        let secret = Secret { key: json[j].key.clone(), value: json[j].value.clone() };
        proof {
            lemma_secrets_push(out@, secret);
            assert(secrets_view(json@)[j as int] == json@[j as int]@);
            assert(second + secrets_view(json@).take(j + 1) =~= (second + secrets_view(json@).take(
                j as int,
            )).push(secret@));
        }
        out.push(secret);
        j += 1;
    }
    assert(secrets_view(json@).take(json@.len() as int) =~= secrets_view(json@));
    out
}

/// What the secrets of a run are made from: the options of the command line, and what the attempts to
/// get at the secrets came to.
pub struct SecretSources {
    /// The secrets that are wanted from the environment.
    pub names: Vec<String>,
    /// What the environment has for each of them.
    pub values: Vec<Result<String, String>>,
    /// Whether `.env` files are left alone.
    pub no_dotenv: bool,
    /// The `.env` file that the user named.
    pub dotenv: Option<String>,
    /// The entries of the `.env` file, or the reason why it cannot be opened.
    pub opened: Result<Vec<Option<Secret>>, String>,
    /// The JSON file that the user named.
    pub json: Option<JsonFile>,
}

/// The texts of what the secrets are made from.
pub struct SourcesView {
    pub names: Seq<Seq<char>>,
    pub values: Seq<TextView>,
    pub no_dotenv: bool,
    pub dotenv: Option<Seq<char>>,
    pub opened: Result<Seq<Option<SecretView>>, Seq<char>>,
    pub json: Option<JsonFileView>,
}

impl View for SecretSources {
    type V = SourcesView;

    open spec fn view(&self) -> SourcesView {
        SourcesView {
            names: texts(self.names@),
            values: values_view(self.values@),
            no_dotenv: self.no_dotenv,
            dotenv: opt_text(self.dotenv),
            opened: opened_view(self.opened),
            json: match self.json {
                Some(file) => Some(file@),
                None => None,
            },
        }
    }
}

/// Why a run gets no secrets, if it gets none: the environment is asked first, then the `.env` file,
/// then the JSON file.
pub open spec fn secrets_trouble(from: SourcesView) -> Option<FailureView> {
    let path = match from.dotenv {
        Some(path) => path,
        None => ""@,
    };
    match environment_trouble(from.names, from.values) {
        Some(failure) => Some(failure),
        None => match dotenv_trouble(
            source_of(from.no_dotenv, from.dotenv is Some),
            path,
            from.opened,
        ) {
            Some(failure) => Some(failure),
            None => match from.json {
                Some(file) => json_trouble(file),
                None => None,
            },
        },
    }
}

/// The list holds the secrets of the JSON file, or nothing where there is none.
pub open spec fn from_json(json: Option<JsonFileView>, list: Seq<SecretView>) -> bool {
    match json {
        Some(file) => lists_pairs(json_pairs(file.text->Ok_0)->Ok_0, list),
        None => list.len() == 0,
    }
}

/// The secrets of a run: those from the environment, the readable entries of the `.env` file, and
/// those of the JSON file.
pub fn load_secrets(from: SecretSources) -> (all: Result<Vec<Secret>, Failure>)
    requires
        from.names@.len() == from.values@.len(),
    ensures
        match secrets_trouble(from@) {
            Some(failure) => all matches Err(e) && e@ == failure,
            None => all matches Ok(list) && exists|json: Seq<SecretView>| #[trigger]
                from_json(from@.json, json) && secrets_view(list@) == named_secrets(
                    from@.names,
                    from@.values,
                ) + readable(
                    dotenv_list(source_of(from@.no_dotenv, from@.dotenv is Some), from@.opened),
                ) + json,
        },
        from.no_dotenv ==> (all matches Ok(list) ==> exists|json: Seq<SecretView>| #[trigger]
            from_json(from@.json, json) && secrets_view(list@) == named_secrets(
                from@.names,
                from@.values,
            ) + json),
        all matches Ok(list) ==> list@.len() >= from.names@.len() && forall|i: int|
            0 <= i < from.names@.len() ==> (#[trigger] list@[i]).key@ == from.names@[i]@ && (
            from.values@[i] matches Ok(value) && list@[i].value@ == value@),
        from.no_dotenv && from.json is None ==> (all matches Ok(list) ==> list@.len()
            == from.names@.len()),
{
    let environment = match environment_secrets(&from.names, &from.values) {
        Ok(list) => list,
        Err(failure) => {
            return Err(failure);
        },
    };
    let source = dotenv_source(from.no_dotenv, from.dotenv.is_some());
    let path = match &from.dotenv {
        Some(path) => path.as_str(),
        None => "",
    };
    let dotenv = match dotenv_entries(&source, path, from.opened) {
        Ok(list) => list,
        Err(failure) => {
            return Err(failure);
        },
    };
    let json = match &from.json {
        Some(file) => {
            match json_secrets(file) {
                Ok(list) => list,
                Err(failure) => {
                    return Err(failure);
                },
            }
        },
        None => Vec::new(),
    };
    assert(from_json(from@.json, secrets_view(json@)));
    let all = all_secrets(environment, dotenv, json);
    proof {
        let named = named_secrets(from@.names, from@.values);
        let entries = readable(
            dotenv_list(source_of(from@.no_dotenv, from@.dotenv is Some), from@.opened),
        );
        law_no_dotenv_adds_nothing(from@.dotenv is Some, ""@, from@.opened);
        law_first_missing(from@.values, 0);
        assert(secrets_view(all@).len() == all@.len());
        assert(secrets_view(all@) == named + entries + secrets_view(json@));
        assert(named + Seq::empty() + secrets_view(json@) =~= named + secrets_view(json@));
        assert forall|i: int| 0 <= i < from.names@.len() implies (#[trigger] all@[i]).key@
            == from.names@[i]@ && (from.values@[i] matches Ok(value) && all@[i].value@
            == value@) by {
            assert(secrets_view(all@)[i] == all@[i]@);
            assert((named + entries + secrets_view(json@))[i] == named[i]);
            assert(from@.values[i] == text_view(from.values@[i]));
            assert(from@.values[i] is Ok);
        }
    }
    Ok(all)
}

/// Where `.env` files are switched off, none adds a secret and none can stand in the way, whether or
/// not one was named and whatever the attempt to open it came to.
pub proof fn law_no_dotenv_adds_nothing(
    named: bool,
    path: Seq<char>,
    opened: Result<Seq<Option<SecretView>>, Seq<char>>,
)
    ensures
        readable(dotenv_list(source_of(true, named), opened)) == Seq::<SecretView>::empty(),
        dotenv_trouble(source_of(true, named), path, opened) is None,
{
}

/// Where `.env` files are not switched off, the entries of one that could be opened are handed on as
/// they are, be it named or not. One that could not be opened adds nothing, and is an error exactly
/// if the user named it.
pub proof fn law_dotenv_is_loaded(
    named: bool,
    path: Seq<char>,
    entries: Seq<Option<SecretView>>,
    cause: Seq<char>,
)
    ensures
        dotenv_list(source_of(false, named), Ok(entries)) == entries,
        dotenv_trouble(source_of(false, named), path, Ok(entries)) is None,
        dotenv_list(source_of(false, named), Err(cause)).len() == 0,
        dotenv_trouble(source_of(false, false), path, Err(cause)) is None,
        dotenv_trouble(source_of(false, true), path, Err(cause)) == Some(
            caused_failure("Could not load dotenv file: "@ + path, cause),
        ),
{
}

/// The readable entries of two lists put together are those of the first and then those of the
/// second; an entry that can be read counts, and one that cannot does not.
pub proof fn law_readable_entries(
    first: Seq<Option<SecretView>>,
    second: Seq<Option<SecretView>>,
    entry: SecretView,
)
    ensures
        readable(first + second) == readable(first) + readable(second),
        readable(seq![Some(entry)]) == seq![entry],
        readable(seq![None::<SecretView>]) == Seq::<SecretView>::empty(),
        readable(Seq::empty()) == Seq::<SecretView>::empty(),
    decreases second.len(),
{
    reveal_with_fuel(readable, 2);
    assert(seq![Some(entry)].drop_last() =~= Seq::empty());
    assert(seq![None::<SecretView>].drop_last() =~= Seq::empty());
    assert(readable(seq![Some(entry)]) =~= seq![entry]);
    if second.len() == 0 {
        assert(first + second =~= first);
        assert(readable(first) + readable(second) =~= readable(first));
    } else {
        let less = second.drop_last();
        law_readable_entries(first, less, entry);
        assert((first + second).drop_last() =~= first + less);
        assert((first + second).last() == second.last());
        assert(readable(first + second) =~= readable(first) + readable(second));
    }
}

/// The first secret that the environment does not have is the one that is complained of, with the
/// reason that the environment gives, whatever else there is to complain of.
pub proof fn law_first_missing_is_named(from: SourcesView, i: int)
    requires
        from.names.len() == from.values.len(),
        0 <= i < from.values.len(),
        from.values[i] is Err,
        forall|j: int| 0 <= j < i ==> #[trigger] from.values[j] is Ok,
    ensures
        secrets_trouble(from) == Some(
            caused_failure(
                "Could not find secret in environment: "@ + from.names[i],
                from.values[i]->Err_0,
            ),
        ),
{
    law_first_missing(from.values, 0);
    let k = first_missing(from.values, 0)->0;
    if k < i {
        assert(from.values[k] is Ok);
    }
}

/// The secrets of a run that come from the environment: as many as there are names, each with its
/// name and its value.
pub proof fn law_named_secrets(names: Seq<Seq<char>>, values: Seq<TextView>, i: int)
    requires
        0 <= i < names.len() == values.len(),
        values[i] is Ok,
    ensures
        named_secrets(names, values).len() == names.len(),
        named_secrets(names, values)[i].0 == names[i],
        Ok::<Seq<char>, Seq<char>>(named_secrets(names, values)[i].1) == values[i],
{
}

/// A JSON file that cannot be read, or not be understood, is complained of with its path and the
/// reason; one that is understood is not, and gives each of its names once, with its value, and no
/// others. Without a JSON file there is nothing from one.
pub proof fn law_json_file(
    path: Seq<char>,
    text: Seq<char>,
    cause: Seq<char>,
    list: Seq<SecretView>,
    key: Seq<char>,
    value: Seq<char>,
)
    ensures
        json_trouble(JsonFileView { path, text: Err(cause) }) == Some(
            caused_failure("Could not load secrets json file: "@ + path, cause),
        ),
        json_pairs(text) matches Err(why) ==> json_trouble(JsonFileView { path, text: Ok(text) })
            == Some(caused_failure("Could not parse secrets json file: "@ + path, why)),
        json_pairs(text) is Ok ==> json_trouble(JsonFileView { path, text: Ok(text) }) is None,
        json_pairs(text) matches Ok(pairs) ==> (from_json(
            Some(JsonFileView { path, text: Ok(text) }),
            list,
        ) ==> (list.contains((key, value)) <==> pairs.contains_key(key) && pairs[key] == value) && (
        forall|a: int, b: int|
            0 <= a < b < list.len() ==> (#[trigger] list[a]).0 != (#[trigger] list[b]).0)),
        from_json(None, list) <==> list.len() == 0,
{
    if json_pairs(text) is Ok && from_json(Some(JsonFileView { path, text: Ok(text) }), list) {
        let map = json_pairs(text)->Ok_0;
        if list.contains((key, value)) {
            let i = choose|i: int| 0 <= i < list.len() && list[i] == (key, value);
            assert(map.contains_key(list[i].0));
        }
        if map.contains_key(key) && map[key] == value {
            let i = choose|i: int| 0 <= i < list.len() && (#[trigger] list[i]).0 == key;
            assert(list[i] == (key, value));
        }
    }
}

/// The texts of a list of secrets, and of a list of entries, are those of its members, in order.
pub proof fn law_texts_of_secrets(list: Seq<Secret>, entries: Seq<Option<Secret>>)
    ensures
        secrets_view(list).len() == list.len(),
        forall|i: int|
            0 <= i < list.len() ==> #[trigger] secrets_view(list)[i] == (
                list[i].key@,
                list[i].value@,
            ),
        entries_view(entries).len() == entries.len(),
        forall|i: int|
            0 <= i < entries.len() ==> #[trigger] entries_view(entries)[i] == match entries[i] {
                Some(s) => Some((s.key@, s.value@)),
                None => None,
            },
{
}

/// A run gets no secrets exactly if the environment lacks one that is wanted, or a `.env` file that
/// the user named and did not switch off cannot be opened, or the JSON file that the user named
/// cannot be read or holds no names and values. A missing `.env` file that nobody named does no
/// harm, nor does one that is switched off.
pub proof fn law_secrets_fail(from: SourcesView)
    requires
        from.names.len() == from.values.len(),
    ensures
        secrets_trouble(from) is Some <==> {
            ||| exists|i: int| 0 <= i < from.values.len() && #[trigger] from.values[i] is Err
            ||| !from.no_dotenv && from.dotenv is Some && from.opened is Err
            ||| from.json is Some && (from.json->0.text is Err || json_pairs(
                from.json->0.text->Ok_0,
            ) is Err)
        },
{
    law_first_missing(from.values, 0);
}

/// A missing secret is one that the environment has no value for, and every name before it has one;
/// none is missing exactly if every name has a value.
pub proof fn law_first_missing(values: Seq<TextView>, from: int)
    requires
        0 <= from <= values.len(),
    ensures
        match first_missing(values, from) {
            Some(i) => from <= i < values.len() && values[i] is Err && (forall|j: int|
                from <= j < i ==> #[trigger] values[j] is Ok),
            None => forall|j: int| from <= j < values.len() ==> #[trigger] values[j] is Ok,
        },
    decreases values.len() - from,
{
    if from < values.len() && values[from] is Ok {
        law_first_missing(values, from + 1);
    }
}

/// What the secrets of a run are made from is seen as it is, with its texts.
pub proof fn law_sources_are_seen(from: SecretSources, i: int)
    requires
        0 <= i < from.names@.len() == from.values@.len(),
    ensures
        from@.names.len() == from.names@.len(),
        from@.names[i] == from.names@[i]@,
        from@.values.len() == from.values@.len(),
        from.values@[i] matches Ok(value) ==> from@.values[i] == Ok::<Seq<char>, Seq<char>>(value@),
        from.values@[i] matches Err(cause) ==> from@.values[i] == Err::<Seq<char>, Seq<char>>(
            cause@,
        ),
        from@.no_dotenv == from.no_dotenv,
        from@.dotenv == opt_text(from.dotenv),
        from.opened matches Ok(entries) ==> from@.opened == Ok::<
            Seq<Option<SecretView>>,
            Seq<char>,
        >(entries_view(entries@)),
        from.opened matches Err(cause) ==> from@.opened == Err::<
            Seq<Option<SecretView>>,
            Seq<char>,
        >(cause@),
        from.json is None <==> from@.json is None,
        from.json matches Some(file) ==> (from@.json matches Some(seen) && seen.path == file.path@
            && seen.text == text_view(file.text)),
{
}

} // verus!
