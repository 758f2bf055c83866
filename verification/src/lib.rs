//! Client library for the Zizq job queue.
//!
//! The library holds what a client decides and computes: how requests are
//! built and responses judged, how the job stream is framed, how a worker
//! schedules handlers and retries reports, and how uniqueness keys are
//! derived from payloads. Sockets, timers and tasks are left to the
//! application around it.

pub mod acks;
pub mod attr_laws;
pub mod attrs;
pub mod batch;
pub mod budget;
pub mod budget_jobs;
pub mod bulk_enqueue;
pub mod call_laws;
pub mod calls;
pub mod canonical_laws;
pub mod client;
pub mod count_jobs;
pub mod cron;
pub mod decode;
pub mod delete_jobs;
pub mod derive;
pub mod dispatch;
pub mod duration;
pub mod encode;
pub mod enqueue;
pub mod error;
pub mod failure;
pub mod format;
pub mod frame_laws;
pub mod frames;
pub mod hashable;
pub mod job;
pub mod job_filter;
pub mod job_patch;
pub mod jobs;
pub mod jq_expr;
pub mod jq_laws;
pub mod jq_parse;
pub mod jq_path;
pub mod json;
pub mod json_laws;
pub mod json_text;
pub mod key_laws;
pub mod list_errors;
pub mod list_jobs;
pub mod list_laws;
pub mod name_order;
pub mod number_text;
pub mod object_laws;
pub mod order_laws;
pub mod patch_jobs;
pub mod path_laws;
pub mod pick_laws;
pub mod range_filter;
pub mod read_laws;
pub mod request;
pub mod resources;
pub mod retry;
pub mod router;
pub mod send_laws;
pub mod setting_laws;
pub mod stream_laws;
pub mod take;
pub mod text;
pub mod text_laws;
pub mod timestamp;
pub mod unique_key;
pub mod urls;
pub mod wire;
pub mod worker;
pub mod worker_laws;

pub use crate::acks::{AckEvent, AckPhase, AckState, HandlerError, JobReport};
pub use crate::attrs::ZizqAttrs;
pub use crate::batch::BatchConfig;
pub use crate::budget::{
    Budget, BudgetBinding, BudgetBindingInput, BudgetChange, BudgetPatch, BudgetPolicy, BudgetStrategy,
};
pub use crate::budget_jobs::BudgetJobsBuilder;
pub use crate::bulk_enqueue::BulkEnqueueBuilder;
pub use crate::calls::{Call, StreamCall};
pub use crate::client::{Client, ClientBuilder, Expected, Reply};
pub use crate::count_jobs::CountJobsBuilder;
pub use crate::cron::{CronEntry, CronEntryRecord, CronGroup, JobTemplate, ReplaceCronBuilder};
pub use crate::delete_jobs::DeleteJobsBuilder;
pub use crate::dispatch::{Dispatch, Effect, Event, Phase, Wait};
pub use crate::duration::Duration;
pub use crate::enqueue::{EnqueueBuilder, EnqueueRequest};
pub use crate::error::ZizqError;
pub use crate::failure::FailureBuilder;
pub use crate::format::Format;
pub use crate::frames::{DecodeResult, StreamDecoder};
pub use crate::job::{JobKind, Payload};
pub use crate::job_filter::JobFilter;
pub use crate::job_patch::{JobPatch, RetentionPatch};
pub use crate::jobs::{Job, JobFromApi};
pub use crate::jq_expr::{jq_array_prefix_eq, jq_contains, jq_eq};
pub use crate::json::{Number, Value};
pub use crate::list_errors::{ErrorPage, ErrorRecord, ListErrorsBuilder};
pub use crate::list_jobs::{JobPage, ListJobsBuilder, Order, PageStream};
pub use crate::patch_jobs::PatchJobsBuilder;
pub use crate::range_filter::RangeFilter;
pub use crate::request::{Method, Request};
pub use crate::resources::{BackoffConfig, JobStatus, PageLinks, RetentionConfig};
pub use crate::router::{Router, State};
pub use crate::take::{TakeBuilder, TakeStream};
pub use crate::timestamp::Timestamp;
pub use crate::unique_key::{UniqueKey, UniqueScope};
pub use crate::worker::{Worker, WorkerBuilder};
