use crate::json::{parsed, rendered, rendered_pretty, Json, JsonView};
use crate::rpc_client::{
    basic_auth_of, call_response, endpoint_of, envelope, extracted, parse_response, HttpRequest,
    RpcClient,
};
use crate::schema::SchemaIndex;
use crate::text::{joined, str_eq};
use vstd::prelude::*;

verus! {

/// The state of the page that runs calls by hand.
#[derive(Debug)]
pub struct RpcState {
    pub schema: Option<SchemaIndex>,
    pub schema_error: Option<String>,
    pub search: String,
    pub collapsed_categories: Vec<String>,
    pub selected_method: Option<String>,
    pub params_input: String,
    pub batch_mode: bool,
    pub batch_input: String,
    pub execute_in_flight: bool,
    pub response: Option<String>,
    pub error: Option<String>,
}

/// What can happen on the page.
#[derive(Debug)]
pub enum RpcEvent {
    SearchChanged(String),
    CategoryToggled(String),
    MethodSelected(String),
    ParamsChanged(String),
    BatchModeToggled(bool),
    BatchChanged(String),
    ExecutePressed,
    ExecuteFinished(Result<String, String>),
}

/// What the caller is to do after a step of the page.
#[derive(Debug)]
pub enum RpcAction {
    /// Nothing.
    Idle,
    /// Run one call with these parameters, given as JSON text, and hand the
    /// outcome back as `ExecuteFinished`.
    RunSingle { method: String, params_text: String },
    /// Post this batch, given as JSON text, and hand the outcome back as
    /// `ExecuteFinished`.
    RunBatch { batch_text: String },
}

/// Whether a category is among the collapsed ones.
pub open spec fn is_collapsed(categories: Seq<String>, category: Seq<char>) -> bool {
    exists|i: int| 0 <= i < categories.len() && (#[trigger] categories[i])@ == category
}

/// The categories other than `category`, in order.
pub open spec fn without(categories: Seq<String>, category: Seq<char>) -> Seq<String>
    decreases categories.len(),
{
    if categories.len() == 0 {
        Seq::empty()
    } else if categories.last()@ == category {
        without(categories.drop_last(), category)
    } else {
        without(categories.drop_last(), category).push(categories.last())
    }
}

/// What `without` leaves is no longer than what it was given; it is the
/// same where the category was not there, and shorter where it was.
pub proof fn lemma_without_len(categories: Seq<String>, category: Seq<char>)
    ensures
        without(categories, category).len() <= categories.len(),
        !is_collapsed(categories, category) ==> without(categories, category) == categories,
        is_collapsed(categories, category) ==> without(categories, category).len()
            < categories.len(),
    decreases categories.len(),
{
    if categories.len() > 0 {
        let front = categories.drop_last();
        lemma_without_len(front, category);
        if is_collapsed(front, category) {
            let w = choose|w: int| 0 <= w < front.len() && (#[trigger] front[w])@ == category;
            assert(categories[w]@ == category);
        }
        if is_collapsed(categories, category) && categories.last()@ != category {
            let w = choose|w: int|
                0 <= w < categories.len() && (#[trigger] categories[w])@ == category;
            assert(front[w]@ == category);
        }
        if !is_collapsed(categories, category) {
            assert(categories[categories.len() - 1]@ != category);
            assert(without(categories, category) =~= categories);
        }
    }
}

/// A category is collapsed in what `without` leaves exactly if it is
/// another one and was collapsed.
pub proof fn lemma_without(categories: Seq<String>, category: Seq<char>, other: Seq<char>)
    ensures
        is_collapsed(without(categories, category), other) == (other != category && is_collapsed(
            categories,
            other,
        )),
    decreases categories.len(),
{
    if categories.len() > 0 {
        let front = categories.drop_last();
        let last = categories.last();
        lemma_without(front, category, other);
        let left = without(categories, category);
        let inner = without(front, category);
        if is_collapsed(categories, other) {
            let w = choose|w: int| 0 <= w < categories.len() && (#[trigger] categories[w])@ == other;
            if w < front.len() {
                assert(front[w]@ == other);
            }
        }
        if is_collapsed(front, other) {
            let w = choose|w: int| 0 <= w < front.len() && (#[trigger] front[w])@ == other;
            assert(categories[w]@ == other);
        }
        if last@ != category {
            assert(left == inner.push(last));
            assert(left[left.len() - 1] == last);
            if is_collapsed(left, other) {
                let w = choose|w: int| 0 <= w < left.len() && (#[trigger] left[w])@ == other;
                if w < left.len() - 1 {
                    assert(inner[w]@ == other);
                }
            }
            if is_collapsed(inner, other) {
                let w = choose|w: int| 0 <= w < inner.len() && (#[trigger] inner[w])@ == other;
                assert(left[w]@ == other);
            }
        }
    }
}

/// The categories after one was toggled.
pub open spec fn toggled(categories: Seq<String>, category: String) -> Seq<String> {
    if is_collapsed(categories, category@) {
        without(categories, category@)
    } else {
        categories.push(category)
    }
}

/// Toggling a category changes whether it is collapsed and leaves every
/// other category as it was.
pub proof fn lemma_toggled(categories: Seq<String>, category: String, other: Seq<char>)
    ensures
        is_collapsed(toggled(categories, category), other) == if other == category@ {
            !is_collapsed(categories, other)
        } else {
            is_collapsed(categories, other)
        },
{
    lemma_without(categories, category@, other);
    if !is_collapsed(categories, category@) {
        let after = categories.push(category);
        assert(after[categories.len() as int] == category);
        if is_collapsed(categories, other) {
            let w = choose|w: int| 0 <= w < categories.len() && (#[trigger] categories[w])@ == other;
            assert(after[w]@ == other);
        }
        if is_collapsed(after, other) {
            let w = choose|w: int| 0 <= w < after.len() && (#[trigger] after[w])@ == other;
            if w < categories.len() {
                assert(categories[w]@ == other);
            }
        }
    }
}

impl RpcState {
    /// Whether all but the categories is as in `other`.
    pub open spec fn same_but_categories(&self, other: &RpcState) -> bool {
        &&& self.schema == other.schema
        &&& self.schema_error == other.schema_error
        &&& self.search == other.search
        &&& self.selected_method == other.selected_method
        &&& self.params_input == other.params_input
        &&& self.batch_mode == other.batch_mode
        &&& self.batch_input == other.batch_input
        &&& self.execute_in_flight == other.execute_in_flight
        &&& self.response == other.response
        &&& self.error == other.error
    }

    /// Whether schema, search and categories are as in `other`.
    pub open spec fn same_catalogue(&self, other: &RpcState) -> bool {
        &&& self.schema == other.schema
        &&& self.schema_error == other.schema_error
        &&& self.search == other.search
        &&& self.collapsed_categories == other.collapsed_categories
    }

    /// Whether the inputs of a call are as in `other`.
    pub open spec fn same_inputs(&self, other: &RpcState) -> bool {
        &&& self.selected_method == other.selected_method
        &&& self.params_input == other.params_input
        &&& self.batch_mode == other.batch_mode
        &&& self.batch_input == other.batch_input
    }

    /// The page for a catalogue, or for the reason why there is none:
    /// every category collapsed, the chain's state selected, no parameters.
    pub fn new(schema: Result<SchemaIndex, String>) -> (r: RpcState)
        ensures
            match schema {
                Ok(index) => {
                    &&& r.schema == Some(index)
                    &&& r.schema_error is None
                    &&& r.collapsed_categories@.len() == index.spec_methods().len()
                    &&& forall|i: int|
                        0 <= i < index.spec_methods().len() ==> (
                        #[trigger] r.collapsed_categories@[i])@ == index.spec_methods()[i].category@
                },
                Err(reason) => {
                    &&& r.schema is None
                    &&& r.schema_error == Some(reason)
                    &&& r.collapsed_categories@.len() == 0
                },
            },
            r.search@.len() == 0,
            r.selected_method is Some && r.selected_method->0@ == "getblockchaininfo"@,
            r.params_input@ == "[]"@,
            !r.batch_mode,
            r.batch_input@ == "[]"@,
            !r.execute_in_flight,
            r.response is None,
            r.error is None,
    {
        let mut collapsed: Vec<String> = Vec::new();
        let (schema, schema_error) = match schema {
            Ok(index) => {
                let methods = index.methods();
                let mut i: usize = 0;
                while i < methods.len()
                    invariant
                        i <= methods@.len(),
                        methods@ == index.spec_methods(),
                        collapsed@.len() == i,
                        forall|j: int|
                            0 <= j < i ==> (#[trigger] collapsed@[j])@ == methods@[j].category@,
                    decreases methods@.len() - i,
                {
                    collapsed.push(methods[i].category.clone());
                    i += 1;
                }
                (Some(index), None)
            },
            Err(reason) => (None, Some(reason)),
        };
        RpcState {
            schema,
            schema_error,
            search: String::new(),
            collapsed_categories: collapsed,
            selected_method: Some("getblockchaininfo".to_owned()),
            params_input: "[]".to_owned(),
            batch_mode: false,
            batch_input: "[]".to_owned(),
            execute_in_flight: false,
            response: None,
            error: None,
        }
    }

    /// Opens a collapsed category and collapses an open one.
    pub fn toggle_category(&mut self, category: String)
        ensures
            final(self).same_but_categories(old(self)),
            final(self).collapsed_categories@ == toggled(old(self).collapsed_categories@, category),
    {
        let ghost before = self.collapsed_categories@;
        let mut kept: Vec<String> = Vec::new();
        let mut i: usize = 0;
        assert(before.take(0) =~= Seq::<String>::empty());
        while i < self.collapsed_categories.len()
            invariant
                i <= before.len(),
                self.collapsed_categories@ == before,
                self.same_but_categories(old(self)),
                kept@ == without(before.take(i as int), category@),
            decreases before.len() - i,
        {
            proof {
                let next = before.take(i + 1);
                assert(next.drop_last() =~= before.take(i as int));
                assert(next.last() == before[i as int]);
            }
            if !str_eq(self.collapsed_categories[i].as_str(), category.as_str()) {
                kept.push(self.collapsed_categories[i].clone());
            }
            i += 1;
        }
        proof {
            assert(before.take(before.len() as int) =~= before);
            lemma_without_len(before, category@);
        }
        if kept.len() == self.collapsed_categories.len() {
            kept.push(category);
        }
        self.collapsed_categories = kept;
    }
}

/// The request that runs one call by hand, or the reason why the
/// parameters are no JSON.
pub fn single_request(client: &RpcClient, method: &str, params_text: &str) -> (r: Result<
    HttpRequest,
    String,
>)
    ensures
        match parsed(params_text@) {
            Some(params) => r matches Ok(request) && request.url@ == endpoint_of(
                client.config().url@,
                client.config().wallet@,
            ) && request.authorization@ == basic_auth_of(
                client.config().user@,
                client.config().password@,
            ) && request.body@ == rendered(
                envelope(JsonView::Str("2.0"@), JsonView::Int(1), method@, params),
            ),
            None => r is Err,
        },
{
    match Json::parse(params_text) {
        Ok(params) => Ok(client.call_request(method, params)),
        Err(reason) => Err(joined("invalid params json: ", reason.as_str())),
    }
}

/// What the page shows for the answer to a call run by hand: the result,
/// indented, or what went wrong.
pub fn single_response(text: &str) -> (r: Result<String, String>)
    ensures
        match parsed(text@) {
            Some(doc) => match extracted(doc) {
                Ok(result) => r matches Ok(shown) && shown@ == rendered_pretty(result),
                Err(failure) => r matches Err(reason) && reason@ == failure.describe(),
            },
            None => r is Err,
        },
{
    match call_response(text) {
        Ok(result) => Ok(result.render_pretty()),
        Err(error) => Err(error.describe()),
    }
}

/// Why a batch given as text is not posted, if it is not: the text is no
/// JSON, or it is no array.
pub open spec fn batch_fault(batch_text: Seq<char>) -> bool {
    match parsed(batch_text) {
        Some(payload) => !(payload is Array),
        None => true,
    }
}

/// The request that posts a batch written by hand.
pub fn batch_request(client: &RpcClient, batch_text: &str) -> (r: Result<HttpRequest, String>)
    ensures
        r is Err <==> batch_fault(batch_text@),
        r matches Ok(request) ==> request.url@ == endpoint_of(
            client.config().url@,
            client.config().wallet@,
        ) && request.authorization@ == basic_auth_of(
            client.config().user@,
            client.config().password@,
        ) && request.body@ == rendered(parsed(batch_text@)->0),
        r matches Err(reason) ==> parsed(batch_text@) is Some ==> reason@
            == "batch mode expects a JSON array"@,
{
    let payload = match Json::parse(batch_text) {
        Ok(payload) => payload,
        Err(reason) => {
            return Err(joined("invalid batch json: ", reason.as_str()));
        },
    };
    if payload.as_array().is_none() {
        return Err("batch mode expects a JSON array".to_owned());
    }
    Ok(client.post_request(&payload))
}

/// What the page shows for the answer to a batch written by hand: the
/// answer as it came, indented.
pub fn batch_answer(text: &str) -> (r: Result<String, String>)
    ensures
        match parsed(text@) {
            Some(doc) => r matches Ok(shown) && shown@ == rendered_pretty(doc),
            None => r is Err,
        },
{
    match parse_response(text) {
        Ok(doc) => Ok(doc.render_pretty()),
        Err(error) => Err(error.describe()),
    }
}

/// One step of the page. Edits set their field; all but the search and the
/// categories also clear the error. Executing needs that nothing is in
/// flight and, outside batch mode, a selected method.
pub fn handle_rpc(state: &mut RpcState, message: RpcEvent) -> (action: RpcAction)
    ensures
        match message {
            RpcEvent::SearchChanged(value) => {
                &&& action is Idle
                &&& final(state).search == value
                &&& final(state).schema == old(state).schema
                &&& final(state).collapsed_categories == old(state).collapsed_categories
                &&& final(state).same_inputs(old(state))
                &&& final(state).execute_in_flight == old(state).execute_in_flight
                &&& final(state).response == old(state).response
                &&& final(state).error == old(state).error
            },
            RpcEvent::CategoryToggled(category) => {
                &&& action is Idle
                &&& final(state).same_but_categories(old(state))
                &&& final(state).collapsed_categories@ == toggled(
                    old(state).collapsed_categories@,
                    category,
                )
            },
            RpcEvent::MethodSelected(method) => {
                &&& action is Idle
                &&& final(state).selected_method == Some(method)
                &&& final(state).error is None
                &&& final(state).same_catalogue(old(state))
                &&& final(state).params_input == old(state).params_input
                &&& final(state).batch_mode == old(state).batch_mode
                &&& final(state).batch_input == old(state).batch_input
                &&& final(state).execute_in_flight == old(state).execute_in_flight
                &&& final(state).response == old(state).response
            },
            RpcEvent::ParamsChanged(value) => {
                &&& action is Idle
                &&& final(state).params_input == value
                &&& final(state).error is None
                &&& final(state).same_catalogue(old(state))
                &&& final(state).selected_method == old(state).selected_method
                &&& final(state).batch_mode == old(state).batch_mode
                &&& final(state).batch_input == old(state).batch_input
                &&& final(state).execute_in_flight == old(state).execute_in_flight
                &&& final(state).response == old(state).response
            },
            RpcEvent::BatchModeToggled(enabled) => {
                &&& action is Idle
                &&& final(state).batch_mode == enabled
                &&& final(state).error is None
                &&& final(state).same_catalogue(old(state))
                &&& final(state).selected_method == old(state).selected_method
                &&& final(state).params_input == old(state).params_input
                &&& final(state).batch_input == old(state).batch_input
                &&& final(state).execute_in_flight == old(state).execute_in_flight
                &&& final(state).response == old(state).response
            },
            RpcEvent::BatchChanged(value) => {
                &&& action is Idle
                &&& final(state).batch_input == value
                &&& final(state).error is None
                &&& final(state).same_catalogue(old(state))
                &&& final(state).selected_method == old(state).selected_method
                &&& final(state).params_input == old(state).params_input
                &&& final(state).batch_mode == old(state).batch_mode
                &&& final(state).execute_in_flight == old(state).execute_in_flight
                &&& final(state).response == old(state).response
            },
            RpcEvent::ExecutePressed => {
                &&& final(state).same_catalogue(old(state))
                &&& final(state).same_inputs(old(state))
                &&& if old(state).execute_in_flight {
                    action is Idle && *final(state) == *old(state)
                } else if old(state).batch_mode {
                    &&& action matches RpcAction::RunBatch { batch_text }
                    &&& batch_text@ == old(state).batch_input@
                    &&& final(state).execute_in_flight
                    &&& final(state).error is None && final(state).response is None
                } else {
                    match old(state).selected_method {
                        Some(selected) => {
                            &&& action matches RpcAction::RunSingle { method, params_text }
                            &&& method@ == selected@
                            &&& params_text@ == old(state).params_input@
                            &&& final(state).execute_in_flight
                            &&& final(state).error is None && final(state).response is None
                        },
                        None => {
                            &&& action is Idle
                            &&& !final(state).execute_in_flight
                            &&& final(state).error is Some && final(state).error->0@
                                == "Select an RPC method first"@
                            &&& final(state).response is None
                        },
                    }
                }
            },
            RpcEvent::ExecuteFinished(result) => {
                &&& action is Idle
                &&& !final(state).execute_in_flight
                &&& final(state).same_catalogue(old(state))
                &&& final(state).same_inputs(old(state))
                &&& match result {
                    Ok(response) => {
                        &&& final(state).response == Some(response)
                        &&& final(state).error is None
                    },
                    Err(error) => {
                        &&& final(state).response is None
                        &&& final(state).error == Some(error)
                    },
                }
            },
        },
{
    match message {
        RpcEvent::SearchChanged(value) => {
            state.search = value;
        },
        RpcEvent::CategoryToggled(category) => {
            state.toggle_category(category);
        },
        RpcEvent::MethodSelected(method) => {
            state.selected_method = Some(method);
            state.error = None;
        },
        RpcEvent::ParamsChanged(value) => {
            state.params_input = value;
            state.error = None;
        },
        RpcEvent::BatchModeToggled(enabled) => {
            state.batch_mode = enabled;
            state.error = None;
        },
        RpcEvent::BatchChanged(value) => {
            state.batch_input = value;
            state.error = None;
        },
        RpcEvent::ExecutePressed => {
            if state.execute_in_flight {
                return RpcAction::Idle;
            }
            state.execute_in_flight = true;
            state.error = None;
            state.response = None;
            if state.batch_mode {
                return RpcAction::RunBatch { batch_text: state.batch_input.clone() };
            }
            let method = match &state.selected_method {
                Some(method) => method.clone(),
                None => {
                    state.execute_in_flight = false;
                    state.error = Some("Select an RPC method first".to_owned());
                    return RpcAction::Idle;
                },
            };
            return RpcAction::RunSingle { method, params_text: state.params_input.clone() };
        },
        RpcEvent::ExecuteFinished(result) => {
            state.execute_in_flight = false;
            match result {
                Ok(response) => {
                    state.response = Some(response);
                    state.error = None;
                },
                Err(error) => {
                    state.response = None;
                    state.error = Some(error);
                },
            }
        },
    }
    RpcAction::Idle
}

} // verus!
