//! The list of repositories in the project configuration: showing it,
//! adding to it, removing from it, and choosing the repository to push to.

use vstd::prelude::*;
use vstd::string::StringExecFns;
use crate::config::{update_config, ConfigKey, ConfigMap};
use crate::json::{array_value, json_elements, json_text, text_value};

verus! {

/// The elements of the array that stands under `repositories`, where an
/// array stands there.
pub open spec fn repositories_of(config: Map<ConfigKey, serde_json::Value>) -> Option<
    Seq<serde_json::Value>,
> {
    if config.contains_key(ConfigKey::Repositories) {
        json_elements(config[ConfigKey::Repositories])
    } else {
        None
    }
}

/// Whether `element` is the string `repo`.
pub open spec fn names_repository(element: serde_json::Value, repo: Seq<char>) -> bool {
    json_text(element) == Some(repo)
}

/// Whether some element of `elements` is the string `repo`.
pub open spec fn is_listed(elements: Seq<serde_json::Value>, repo: Seq<char>) -> bool {
    exists|i: int| 0 <= i < elements.len() && names_repository(#[trigger] elements[i], repo)
}

/// The texts of the elements of `elements` that are strings, in order.
pub open spec fn repository_names(elements: Seq<serde_json::Value>) -> Seq<Seq<char>>
    decreases elements.len(),
{
    if elements.len() == 0 {
        Seq::empty()
    } else {
        let earlier = repository_names(elements.drop_last());
        match json_text(elements.last()) {
            Some(name) => earlier.push(name),
            None => earlier,
        }
    }
}

/// The elements of `elements` that are not the string `repo`, in order.
pub open spec fn without(elements: Seq<serde_json::Value>, repo: Seq<char>) -> Seq<
    serde_json::Value,
>
    decreases elements.len(),
{
    if elements.len() == 0 {
        Seq::empty()
    } else {
        let earlier = without(elements.drop_last(), repo);
        if names_repository(elements.last(), repo) {
            earlier
        } else {
            earlier.push(elements.last())
        }
    }
}

fn repositories(config: &ConfigMap) -> (r: Option<&Vec<serde_json::Value>>)
    ensures
        r.is_some() == repositories_of(config@).is_some(),
        r matches Some(elements) ==> repositories_of(config@) == Some(elements@),
{
    match config.get(&ConfigKey::Repositories) {
        Some(value) => value.as_array(),
        None => None,
    }
}

fn names(element: &serde_json::Value, repo: &str) -> (r: bool)
    ensures
        r == names_repository(*element, repo@),
{
    match element.as_str() {
        Some(text) => *text == *repo,
        None => false,
    }
}

fn lists(elements: &Vec<serde_json::Value>, repo: &str) -> (r: bool)
    ensures
        r == is_listed(elements@, repo@),
{
    let mut at: usize = 0;
    while at < elements.len()
        invariant
            at <= elements.len(),
            forall|i: int| 0 <= i < at ==> !names_repository(#[trigger] elements[i], repo@),
        decreases elements.len() - at,
    {
        if names(&elements[at], repo) {
            return true;
        }
        at += 1;
    }
    false
}

/// The repositories to show: the strings among the elements of the array
/// under `repositories`, in order; nothing where no array stands there.
pub fn listed_repositories(config: &ConfigMap) -> (r: Vec<String>)
    ensures
        r.deep_view() == match repositories_of(config@) {
            Some(elements) => repository_names(elements),
            None => Seq::empty(),
        },
{
    let mut found: Vec<String> = Vec::new();
    let elements = match repositories(config) {
        Some(elements) => elements,
        None => {
            assert(found.deep_view() =~= Seq::<Seq<char>>::empty());
            return found;
        },
    };
    let mut at: usize = 0;
    assert(found.deep_view() =~= repository_names(elements@.take(0)));
    while at < elements.len()
        invariant
            at <= elements.len(),
            found.deep_view() == repository_names(elements@.take(at as int)),
        decreases elements.len() - at,
    {
        let ghost before = found.deep_view();
        assert(elements@.take(at as int + 1).drop_last() == elements@.take(at as int));
        assert(elements@.take(at as int + 1).last() == elements[at as int]);
        if let Some(name) = elements[at].as_str() {
            found.push(String::from_str(name));
            assert(found.deep_view() =~= before.push(name@));
        }
        at += 1;
    }
    assert(elements@.take(at as int) == elements@);
    found
}

/// What adding a repository to the configuration takes.
#[derive(Debug, Clone, Copy, PartialEq, Eq, Structural)]
pub enum AddPlan {
    /// The repository is listed already: nothing is to be done.
    AlreadyListed,
    /// The repository is to be added once the remote side has confirmed
    /// that it exists.
    CheckThenAdd,
    /// What stands under `repositories` is no array: nothing can be added.
    NotAnArray,
}

/// What adding `repo` to `config` takes. A configuration without the key
/// counts as one with an empty list.
pub open spec fn add_plan(config: Map<ConfigKey, serde_json::Value>, repo: Seq<char>) -> AddPlan {
    if !config.contains_key(ConfigKey::Repositories) {
        AddPlan::CheckThenAdd
    } else {
        match json_elements(config[ConfigKey::Repositories]) {
            Some(elements) => if is_listed(elements, repo) {
                AddPlan::AlreadyListed
            } else {
                AddPlan::CheckThenAdd
            },
            None => AddPlan::NotAnArray,
        }
    }
}

/// The text that tells the user that nothing can be added.
pub open spec fn not_an_array_message() -> Seq<char> {
    "'repositories' key in config is not an array. Cannot add repository."@
}

/// Decides what adding `repo` to `config` takes.
pub fn plan_remote_add(config: &ConfigMap, repo: &str) -> (r: AddPlan)
    ensures
        r == add_plan(config@, repo@),
{
    if !config.contains_key(&ConfigKey::Repositories) {
        return AddPlan::CheckThenAdd;
    }
    match repositories(config) {
        Some(elements) => if lists(elements, repo) {
            AddPlan::AlreadyListed
        } else {
            AddPlan::CheckThenAdd
        },
        None => AddPlan::NotAnArray,
    }
}

fn copy_elements(elements: &Vec<serde_json::Value>) -> (r: Vec<serde_json::Value>)
    ensures
        r@ == elements@,
{
    let mut copy: Vec<serde_json::Value> = Vec::new();
    let mut at: usize = 0;
    while at < elements.len()
        invariant
            at <= elements.len(),
            copy@ == elements@.take(at as int),
        decreases elements.len() - at,
    {
        copy.push(elements[at].clone());
        assert(copy@ =~= elements@.take(at as int + 1));
        at += 1;
    }
    assert(elements@.take(at as int) == elements@);
    copy
}

/// Whether `after` is `before` with the string `repo` added at the end of
/// the list under `repositories`, and nothing else changed.
pub open spec fn repository_added(
    before: Map<ConfigKey, serde_json::Value>,
    after: Map<ConfigKey, serde_json::Value>,
    repo: Seq<char>,
) -> bool {
    let listed = match repositories_of(before) {
        Some(elements) => elements,
        None => Seq::empty(),
    };
    &&& after == before.insert(ConfigKey::Repositories, after[ConfigKey::Repositories])
    &&& json_elements(after[ConfigKey::Repositories]) matches Some(elements)
    &&& elements.len() == listed.len() + 1
    &&& elements.drop_last() == listed
    &&& names_repository(elements.last(), repo)
}

/// The configuration with `repo` added to its list of repositories, where
/// adding is what [`plan_remote_add`] calls for; the configuration as it
/// is where it is not.
pub fn with_repository(config: &ConfigMap, repo: &str) -> (r: ConfigMap)
    ensures
        add_plan(config@, repo@) == AddPlan::CheckThenAdd ==> repository_added(
            config@,
            r@,
            repo@,
        ),
        add_plan(config@, repo@) != AddPlan::CheckThenAdd ==> r@ == config@,
{
    let mut updated = config.clone();
    match plan_remote_add(config, repo) {
        AddPlan::CheckThenAdd => {
            let mut elements = match repositories(config) {
                Some(elements) => copy_elements(elements),
                None => Vec::new(),
            };
            let ghost listed = elements@;
            elements.push(text_value(repo));
            assert(elements@.drop_last() == listed);
            updated.insert(ConfigKey::Repositories, array_value(elements));
            updated
        },
        _ => updated,
    }
}

/// The configuration that is left once `repo` is taken out of `before`:
/// every element that is the string `repo` leaves the list under
/// `repositories`; where that empties the list, the whole configuration
/// is emptied; where no array stands under `repositories`, nothing
/// changes.
pub open spec fn repository_removed(
    before: Map<ConfigKey, serde_json::Value>,
    after: Map<ConfigKey, serde_json::Value>,
    repo: Seq<char>,
) -> bool {
    match repositories_of(before) {
        Some(elements) => if without(elements, repo).len() == 0 {
            after == Map::<ConfigKey, serde_json::Value>::empty()
        } else {
            &&& after == before.insert(ConfigKey::Repositories, after[ConfigKey::Repositories])
            &&& json_elements(after[ConfigKey::Repositories]) == Some(without(elements, repo))
        },
        None => after == before,
    }
}

/// The configuration without `repo` in its list of repositories.
pub fn without_repository(config: &ConfigMap, repo: &str) -> (r: ConfigMap)
    ensures
        repository_removed(config@, r@, repo@),
{
    let elements = match repositories(config) {
        Some(elements) => elements,
        None => {
            return config.clone();
        },
    };
    let mut kept: Vec<serde_json::Value> = Vec::new();
    let mut at: usize = 0;
    assert(kept@ =~= without(elements@.take(0), repo@));
    while at < elements.len()
        invariant
            at <= elements.len(),
            kept@ == without(elements@.take(at as int), repo@),
        decreases elements.len() - at,
    {
        assert(elements@.take(at as int + 1).drop_last() == elements@.take(at as int));
        assert(elements@.take(at as int + 1).last() == elements[at as int]);
        if !names(&elements[at], repo) {
            kept.push(elements[at].clone());
        }
        at += 1;
    }
    assert(elements@.take(at as int) == elements@);
    if kept.len() == 0 {
        ConfigMap::new()
    } else {
        let mut updates = ConfigMap::new();
        updates.insert(ConfigKey::Repositories, array_value(kept));
        let merged = update_config(config, &updates);
        assert(merged@ =~= config@.insert(
            ConfigKey::Repositories,
            merged@[ConfigKey::Repositories],
        ));
        merged
    }
}

/// Why no repository can be pushed to.
#[derive(Debug, Clone, Copy, PartialEq, Eq, Structural)]
pub enum RepositoryError {
    /// The configuration lists no repository.
    NoneConfigured,
    /// The first entry of the list is no string.
    Invalid,
}

/// The text that tells the user of `error`.
pub open spec fn repository_error_message(error: RepositoryError) -> Seq<char> {
    match error {
        RepositoryError::NoneConfigured => "No repository configured"@,
        RepositoryError::Invalid => "Invalid repository configuration"@,
    }
}

impl RepositoryError {
    /// The text that tells the user of the error.
    pub fn message(&self) -> (r: String)
        ensures
            r@ == repository_error_message(*self),
    {
        match self {
            RepositoryError::NoneConfigured => String::from_str("No repository configured"),
            RepositoryError::Invalid => String::from_str("Invalid repository configuration"),
        }
    }
}

/// The repository that a push goes to: the first of the list, which must
/// be a string.
pub open spec fn selected_repository(config: Map<ConfigKey, serde_json::Value>) -> Result<
    Seq<char>,
    RepositoryError,
> {
    match repositories_of(config) {
        Some(elements) => if elements.len() == 0 {
            Err(RepositoryError::NoneConfigured)
        } else {
            match json_text(elements[0]) {
                Some(name) => Ok(name),
                None => Err(RepositoryError::Invalid),
            }
        },
        None => Err(RepositoryError::NoneConfigured),
    }
}

/// Chooses the repository that a push goes to.
pub fn select_repository(config: &ConfigMap) -> (r: Result<String, RepositoryError>)
    ensures
        match selected_repository(config@) {
            Ok(name) => r matches Ok(found) && found@ == name,
            Err(error) => r == Err::<String, RepositoryError>(error),
        },
{
    let elements = match repositories(config) {
        Some(elements) => elements,
        None => {
            return Err(RepositoryError::NoneConfigured);
        },
    };
    if elements.len() == 0 {
        return Err(RepositoryError::NoneConfigured);
    }
    match elements[0].as_str() {
        Some(name) => Ok(String::from_str(name)),
        None => Err(RepositoryError::Invalid),
    }
}

/// What a status code that answers the request for a repository says of
/// the repository: 200 that it exists, 403 and 404 that it cannot be
/// had, every other code nothing.
pub open spec fn repository_presence(status: u16) -> Option<bool> {
    if status == 200 {
        Some(true)
    } else if status == 404 || status == 403 {
        Some(false)
    } else {
        None
    }
}

/// Reads off a status code whether the repository asked for exists.
pub fn classify_repository_status(status: u16) -> (r: Option<bool>)
    ensures
        r == repository_presence(status),
{
    if status == 200 {
        Some(true)
    } else if status == 404 || status == 403 {
        Some(false)
    } else {
        None
    }
}

} // verus!
