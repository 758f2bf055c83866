use zizq::{
    BudgetBindingInput, BudgetJobsBuilder, BudgetPolicy, BudgetStrategy, Client, CountJobsBuilder,
    DeleteJobsBuilder, Format, JobFilter, JobPatch, JobStatus, ListErrorsBuilder, ListJobsBuilder,
    Method, Number, Order, PatchJobsBuilder, Request, Value, ZizqError,
};

fn client() -> Client {
    Client::builder()
        .url("http://127.0.0.1:7890")
        .format(Format::Json)
        .build()
        .unwrap()
}

fn url(c: &Client, request: &Request) -> url::Url {
    assert!(c.can_address(request));
    url::Url::parse(&c.url(request)).unwrap()
}

#[test]
fn default_filter_matches_nothing_is_false() {
    let f = JobFilter::default();
    assert!(!f.matches_nothing());
    assert!(!f.has_params());
}

#[test]
fn explicitly_empty_list_matches_nothing() {
    let f = JobFilter {
        status: Some(vec![]),
        ..Default::default()
    };
    assert!(f.matches_nothing());
    assert!(!f.has_params());
}

#[test]
fn populated_filter_has_params_and_matches_something() {
    let f = JobFilter {
        queue: Some(vec!["emails".into()]),
        ..Default::default()
    };
    assert!(!f.matches_nothing());
    assert!(f.has_params());
}

#[test]
fn jq_only_filter_has_params() {
    let f = JobFilter {
        jq: Some(".x == 1".into()),
        ..Default::default()
    };
    assert!(!f.matches_nothing());
    assert!(f.has_params());
}

#[test]
fn list_jobs_empty_builder_has_no_query() {
    let c = client();
    let url = url(&c, &ListJobsBuilder::new().build_request());
    assert_eq!(url.path(), "/jobs");
    assert_eq!(url.query(), None);
}

#[test]
fn list_jobs_paging_params_appear_in_query() {
    let c = client();
    let request = ListJobsBuilder::new()
        .from("cursor-9")
        .order(Order::Desc)
        .limit(25)
        .build_request();
    let url = url(&c, &request);
    let query = url.query().unwrap();
    assert!(query.contains("from=cursor-9"));
    assert!(query.contains("order=desc"));
    assert!(query.contains("limit=25"));
}

#[test]
fn shared_filters_are_comma_delimited() {
    let c = client();
    let request = ListJobsBuilder::new()
        .status(&[JobStatus::Ready, JobStatus::Scheduled])
        .queue(&["emails", "webhooks"])
        .build_request();
    let url = url(&c, &request);
    let query = url.query().unwrap();
    assert!(query.contains("status=ready%2Cscheduled"));
    assert!(query.contains("queue=emails%2Cwebhooks"));
}

#[test]
fn every_parameter_has_its_place() {
    let c = client();
    let request = ListJobsBuilder::new()
        .from("j")
        .order(Order::Asc)
        .limit(7)
        .status(&[JobStatus::Dead])
        .queue(&["q"])
        .job_type(&["a", "b"])
        .id(&["1"])
        .budgets_key(&["k"])
        .filter(".x == 1")
        .build_request();
    assert_eq!(request.method, Method::Get);
    assert_eq!(
        url(&c, &request).as_str(),
        "http://127.0.0.1:7890/jobs?from=j&order=asc&limit=7&status=dead&queue=q&type=a%2Cb&id=1\
         &budgets.key=k&filter=.x+%3D%3D+1"
    );
}

#[test]
fn bare_builder_has_no_query() {
    let c = client();
    let url = url(&c, &ListErrorsBuilder::new("job-1").build_request());
    assert_eq!(url.path(), "/jobs/job-1/errors");
    assert_eq!(url.query(), None);
}

#[test]
fn list_errors_paging_params_appear_in_query() {
    let c = client();
    let request = ListErrorsBuilder::new("job-1")
        .from(3)
        .order(Order::Desc)
        .limit(25)
        .build_request();
    let url = url(&c, &request);
    let query = url.query().unwrap();
    assert!(query.contains("from=3"));
    assert!(query.contains("order=desc"));
    assert!(query.contains("limit=25"));
}

#[test]
fn job_id_is_percent_encoded() {
    let c = client();
    let url = url(&c, &ListErrorsBuilder::new("ns/abc").build_request());
    assert_eq!(url.path(), "/jobs/ns%2Fabc/errors");
}

#[test]
fn count_jobs_empty_builder_has_no_query() {
    let c = client();
    let url = url(&c, &CountJobsBuilder::new().build_request());
    assert_eq!(url.path(), "/jobs/count");
    assert_eq!(url.query(), None);
}

#[test]
fn count_jobs_filters_appear_in_query() {
    let c = client();
    let request = CountJobsBuilder::new()
        .status(&[JobStatus::Dead])
        .queue(&["emails"])
        .build_request();
    let url = url(&c, &request);
    let query = url.query().unwrap();
    assert!(query.contains("status=dead"));
    assert!(query.contains("queue=emails"));
}

#[test]
fn delete_jobs_unfiltered_builder_has_no_query() {
    let c = client();
    let url = url(&c, &DeleteJobsBuilder::new().build_request());
    assert_eq!(url.path(), "/jobs");
    assert_eq!(url.query(), None);
}

#[test]
fn delete_jobs_filters_appear_in_query() {
    let c = client();
    let request = DeleteJobsBuilder::new()
        .status(&[JobStatus::Dead])
        .queue(&["emails"])
        .build_request();
    assert_eq!(request.method, Method::Delete);
    let url = url(&c, &request);
    let query = url.query().unwrap();
    assert!(query.contains("status=dead"));
    assert!(query.contains("queue=emails"));
}

#[test]
fn patch_jobs_unfiltered_builder_has_no_query() {
    let c = client();
    let url = url(&c, &PatchJobsBuilder::new().build_request(&JobPatch::new()));
    assert_eq!(url.path(), "/jobs");
    assert_eq!(url.query(), None);
}

#[test]
fn patch_jobs_filters_appear_in_query() {
    let c = client();
    let request = PatchJobsBuilder::new()
        .status(&[JobStatus::Ready])
        .queue(&["emails"])
        .build_request(&JobPatch::new());
    let url = url(&c, &request);
    let query = url.query().unwrap();
    assert!(query.contains("status=ready"));
    assert!(query.contains("queue=emails"));
}

#[test]
fn awaiting_without_patch_errors() {
    let result = PatchJobsBuilder::new()
        .status(&[JobStatus::Ready])
        .request();
    assert!(matches!(result, Err(ZizqError::MissingPatch)));
}

#[test]
fn empty_filter_short_circuits_to_zero() {
    let result = PatchJobsBuilder::new()
        .status(&[])
        .patch(JobPatch::new().retry_limit(5))
        .request();
    assert!(matches!(result, Ok(None)));
}

#[test]
fn missing_patch_takes_precedence_over_empty_filter() {
    let result = PatchJobsBuilder::new().status(&[]).request();
    assert!(matches!(result, Err(ZizqError::MissingPatch)));
}

#[test]
fn a_patch_is_sent_as_the_body() {
    let request = PatchJobsBuilder::new()
        .patch(JobPatch::new().retry_limit(5))
        .request()
        .unwrap()
        .unwrap();
    assert_eq!(request.method, Method::Patch);
    assert_eq!(
        request.body,
        Some(Value::Object(vec![(
            "retry_limit".into(),
            Value::Number(Number::PosInt(5))
        )]))
    );
}

#[test]
fn an_empty_list_on_any_axis_sends_nothing() {
    assert!(ListJobsBuilder::new().status(&[]).request().is_none());
    assert!(ListJobsBuilder::new().queue(&[]).request().is_none());
    assert!(ListJobsBuilder::new().job_type(&[]).request().is_none());
    assert!(ListJobsBuilder::new().id(&[]).request().is_none());
    assert!(ListJobsBuilder::new().budgets_key(&[]).request().is_none());
    assert!(ListJobsBuilder::new().filter("").request().is_some());
    assert!(CountJobsBuilder::new().queue(&[]).request().is_none());
    assert!(DeleteJobsBuilder::new().budgets_key(&[]).request().is_none());
    assert!(BudgetJobsBuilder::clear().queue(&[]).request().is_none());
    assert!(BudgetJobsBuilder::clear().request().is_some());
}

#[test]
fn the_budget_key_travels_in_the_path() {
    let c = client();
    let request = BudgetJobsBuilder::bind(BudgetBindingInput::new("emails")).build_request();
    let url = url(&c, &request);
    assert_eq!(url.path(), "/jobs/budgets/emails");
    assert_eq!(url.query(), None);
}

#[test]
fn clearing_targets_the_collection_itself() {
    let c = client();
    let url = url(&c, &BudgetJobsBuilder::clear().build_request());
    assert_eq!(url.path(), "/jobs/budgets");
}

#[test]
fn filters_appear_in_the_query() {
    let c = client();
    let request = BudgetJobsBuilder::unbind("emails".to_string())
        .status(&[JobStatus::Ready])
        .queue(&["billing"])
        .budgets_key(&["emails"])
        .build_request();
    let url = url(&c, &request);
    let query = url.query().unwrap();
    assert!(query.contains("status=ready"));
    assert!(query.contains("queue=billing"));
    assert!(query.contains("budgets.key=emails"));
}

#[test]
fn a_key_needing_escaping_is_encoded_in_the_path() {
    let c = client();
    let request = BudgetJobsBuilder::unbind("emails/acme".to_string()).build_request();
    assert_eq!(url(&c, &request).path(), "/jobs/budgets/emails%2Facme");
}

#[test]
fn budget_operations_have_their_methods_and_bodies() {
    let cost = |n: u64| {
        Some(Value::Object(vec![(
            "cost".into(),
            Value::Number(Number::PosInt(n)),
        )]))
    };
    let bind = BudgetJobsBuilder::bind(BudgetBindingInput::new("k").cost(2)).build_request();
    assert_eq!(bind.method, Method::Post);
    assert_eq!(bind.body, cost(2));
    let policy = BudgetPolicy::new(3, BudgetStrategy::WhileInFlight);
    let rebind =
        BudgetJobsBuilder::rebind(BudgetBindingInput::with_policy("k", policy)).build_request();
    assert_eq!(rebind.method, Method::Put);
    match rebind.body {
        Some(Value::Object(entries)) => assert_eq!(entries[0].0, "create_with"),
        other => panic!("unexpected body {other:?}"),
    }
    let set = BudgetJobsBuilder::set_cost("k".into(), 4).build_request();
    assert_eq!(set.method, Method::Patch);
    assert_eq!(set.body, cost(4));
    let unbind = BudgetJobsBuilder::unbind("k".into()).build_request();
    assert_eq!(unbind.method, Method::Delete);
    assert_eq!(unbind.body, None);
}

#[test]
fn counts_are_read_from_their_fields() {
    let reply = |name: &str, v: Value| Value::Object(vec![(name.into(), v)]);
    let n = |n: u64| Value::Number(Number::PosInt(n));
    assert_eq!(CountJobsBuilder::read_response(&reply("count", n(3))), Some(3));
    assert_eq!(DeleteJobsBuilder::read_response(&reply("deleted", n(4))), Some(4));
    assert_eq!(PatchJobsBuilder::read_response(&reply("patched", n(5))), Some(5));
    assert_eq!(CountJobsBuilder::read_response(&reply("deleted", n(3))), None);
    assert_eq!(CountJobsBuilder::read_response(&Value::Array(vec![n(3)])), Some(3));
    assert_eq!(CountJobsBuilder::read_response(&Value::Array(vec![n(3), n(3)])), None);
    assert_eq!(CountJobsBuilder::read_response(&reply("count", Value::Null)), None);
}
