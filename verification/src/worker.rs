//! Worker configuration.

use vstd::prelude::*;
use crate::client::Client;
use crate::dispatch::Dispatch;
use crate::duration::{Duration, NANOS_PER_SEC};
use crate::error::ZizqError;
use crate::take::TakeBuilder;
use crate::text::{owned, slice_texts, texts};

verus! {

/// How long a shutdown waits for handlers and acknowledgements by default,
/// in seconds.
pub const DEFAULT_SHUTDOWN_TIMEOUT: u64 = 60;

/// A worker: where jobs come from, who handles them and how many at once.
#[derive(Debug)]
pub struct Worker<H> {
    pub client: Client,
    pub handler: H,
    /// Maximum number of running handlers.
    pub concurrency: usize,
    /// Queues to take jobs from; none means all queues.
    pub queues: Vec<String>,
    /// Maximum number of unacknowledged jobs that the server sends.
    pub prefetch: u32,
    /// Whether to connect again after the stream ends.
    pub reconnect: bool,
    /// How long a shutdown waits for handlers and acknowledgements.
    pub shutdown_timeout: Duration,
}

/// Fluent builder for a [`Worker`].
#[derive(Debug)]
pub struct WorkerBuilder<H> {
    pub client: Option<Client>,
    pub handler: Option<H>,
    pub concurrency: usize,
    pub queues: Vec<String>,
    pub prefetch: Option<u32>,
    /// Whether the prefetch limit was set on its own, and so no longer
    /// follows the concurrency.
    pub prefetch_set: bool,
    pub reconnect: bool,
    pub shutdown_timeout: Duration,
}

/// A number of handlers as a prefetch limit, in the 32 bits that it has.
pub open spec fn as_prefetch(concurrency: usize) -> u32 {
    (concurrency as int % 0x1_0000_0000) as u32
}

fn to_prefetch(concurrency: usize) -> (r: u32)
    ensures
        r == as_prefetch(concurrency),
{
    (concurrency as u64 % 0x1_0000_0000u64) as u32
}

impl<H> Default for WorkerBuilder<H> {
    fn default() -> (r: WorkerBuilder<H>)
        ensures
            r.client is None,
            r.handler is None,
            r.concurrency == 1,
            r.queues@.len() == 0,
            r.prefetch is None,
            !r.prefetch_set,
            r.wf(),
            r.reconnect,
            r.shutdown_timeout.nanos == DEFAULT_SHUTDOWN_TIMEOUT * NANOS_PER_SEC,
    {
        WorkerBuilder {
            client: None,
            handler: None,
            concurrency: 1,
            queues: Vec::new(),
            prefetch: None,
            prefetch_set: false,
            reconnect: true,
            shutdown_timeout: Duration::from_secs(DEFAULT_SHUTDOWN_TIMEOUT),
        }
    }
}

impl<H> WorkerBuilder<H> {
    /// Whether at least one handler may run, and the prefetch limit is the
    /// concurrency wherever it was not set on its own.
    pub open spec fn wf(&self) -> bool {
        &&& self.concurrency >= 1
        &&& self.prefetch_set ==> self.prefetch is Some
        &&& !self.prefetch_set ==> self.limit() == as_prefetch(self.concurrency)
    }

    /// The prefetch limit of the worker that this builder describes.
    pub open spec fn limit(&self) -> u32 {
        match self.prefetch {
            Some(p) => p,
            None => as_prefetch(self.concurrency),
        }
    }

    /// This builder with `n` jobs handled at once, one at least.
    pub open spec fn with_concurrency(self, n: usize) -> WorkerBuilder<H> {
        let concurrency: usize = if n == 0 {
            1
        } else {
            n
        };
        WorkerBuilder {
            concurrency,
            prefetch: if self.prefetch_set {
                self.prefetch
            } else {
                Some(as_prefetch(concurrency))
            },
            ..self
        }
    }

    /// This builder with the prefetch limit `n`.
    pub open spec fn with_prefetch(self, n: u32) -> WorkerBuilder<H> {
        WorkerBuilder { prefetch: Some(n), prefetch_set: true, ..self }
    }

    /// Sets the client. Required.
    pub fn client(self, client: Client) -> (r: WorkerBuilder<H>)
        ensures
            r == (WorkerBuilder { client: Some(client), ..self }),
    {
        WorkerBuilder { client: Some(client), ..self }
    }

    /// Sets the handler. Required.
    pub fn handler(self, handler: H) -> (r: WorkerBuilder<H>)
        ensures
            r == (WorkerBuilder { handler: Some(handler), ..self }),
    {
        WorkerBuilder { handler: Some(handler), ..self }
    }

    /// Sets how many jobs are handled at once, one at least. Unless a
    /// prefetch limit was set on its own it becomes the same number, so
    /// that the server does not hold jobs back.
    pub fn concurrency(self, n: usize) -> (r: WorkerBuilder<H>)
        ensures
            r.concurrency == if n == 0 {
                1
            } else {
                n
            },
            r.prefetch == if self.prefetch_set {
                self.prefetch
            } else {
                Some(as_prefetch(r.concurrency))
            },
            r == self.with_concurrency(n),
    {
        let concurrency: usize = if n == 0 {
            1
        } else {
            n
        };
        let prefetch = if self.prefetch_set {
            self.prefetch
        } else {
            Some(to_prefetch(concurrency))
        };
        WorkerBuilder { concurrency, prefetch, ..self }
    }

    /// Restricts the worker to the given queues.
    pub fn queues(self, queues: &[&str]) -> (r: WorkerBuilder<H>)
        ensures
            texts(r.queues@) == slice_texts(queues@),
            r == (WorkerBuilder { queues: r.queues, ..self }),
    {
        WorkerBuilder { queues: owned(queues), ..self }
    }

    /// Sets how many unacknowledged jobs the server sends.
    pub fn prefetch(self, n: u32) -> (r: WorkerBuilder<H>)
        ensures
            r == self.with_prefetch(n),
    {
        WorkerBuilder { prefetch: Some(n), prefetch_set: true, ..self }
    }

    /// Sets whether the worker connects again after the stream ends.
    pub fn reconnect(self, enabled: bool) -> (r: WorkerBuilder<H>)
        ensures
            r == (WorkerBuilder { reconnect: enabled, ..self }),
    {
        WorkerBuilder { reconnect: enabled, ..self }
    }

    /// Sets how long a shutdown waits for handlers and acknowledgements.
    pub fn shutdown_timeout(self, d: Duration) -> (r: WorkerBuilder<H>)
        ensures
            r == (WorkerBuilder { shutdown_timeout: d, ..self }),
    {
        WorkerBuilder { shutdown_timeout: d, ..self }
    }

    /// Finalises the builder: a client and a handler are required.
    pub fn build(self) -> (r: Result<Worker<H>, ZizqError>)
        ensures
            match (self.client, self.handler) {
                (None, _) => r matches Err(ZizqError::MissingClient),
                (Some(_), None) => r matches Err(ZizqError::MissingHandler),
                (Some(client), Some(handler)) => r == Ok::<Worker<H>, ZizqError>(
                    Worker {
                        client,
                        handler,
                        concurrency: self.concurrency,
                        queues: self.queues,
                        prefetch: self.limit(),
                        reconnect: self.reconnect,
                        shutdown_timeout: self.shutdown_timeout,
                    },
                ),
            },
    {
        let client = match self.client {
            Some(client) => client,
            None => {
                return Err(ZizqError::MissingClient);
            },
        };
        let handler = match self.handler {
            Some(handler) => handler,
            None => {
                return Err(ZizqError::MissingHandler);
            },
        };
        let prefetch = match self.prefetch {
            Some(p) => p,
            None => to_prefetch(self.concurrency),
        };
        Ok(
            Worker {
                client,
                handler,
                concurrency: self.concurrency,
                queues: self.queues,
                prefetch,
                reconnect: self.reconnect,
                shutdown_timeout: self.shutdown_timeout,
            },
        )
    }
}

impl<H> Worker<H> {
    /// Starts building a worker.
    pub fn builder() -> (r: WorkerBuilder<H>)
        ensures
            r.client is None,
            r.handler is None,
            r.concurrency == 1,
            r.queues@.len() == 0,
            r.prefetch is None,
            !r.prefetch_set,
            r.wf(),
            r.reconnect,
            r.shutdown_timeout.nanos == DEFAULT_SHUTDOWN_TIMEOUT * NANOS_PER_SEC,
    {
        WorkerBuilder::default()
    }

    /// The dispatch loop of this worker before its first event.
    pub fn run(&self) -> (r: Dispatch)
        requires
            self.concurrency >= 1,
        ensures
            r.wf(),
            r == crate::dispatch::fresh(self.concurrency, self.reconnect),
    {
        Dispatch::new(self.concurrency, self.reconnect)
    }

    /// The job stream that this worker opens.
    pub fn take(&self) -> (r: TakeBuilder)
        ensures
            texts(r.queues@) == texts(self.queues@),
            r.prefetch == Some(self.prefetch),
    {
        let mut queues: Vec<String> = Vec::new();
        let mut i: usize = 0;
        while i < self.queues.len()
            invariant
                i <= self.queues@.len(),
                queues@ == self.queues@.take(i as int),
            decreases self.queues@.len() - i,
        {
            queues.push(self.queues[i].clone());
            assert(queues@ =~= self.queues@.take(i + 1));
            i += 1;
        }
        assert(self.queues@.take(i as int) =~= self.queues@);
        TakeBuilder { queues, prefetch: Some(self.prefetch) }
    }
}

/// The prefetch limit follows the concurrency, however often that is set,
/// until the limit is set on its own; from then on it stays.
pub proof fn law_prefetch_follows_concurrency<H>(b: WorkerBuilder<H>, n: usize, p: u32)
    requires
        b.wf(),
    ensures
        b.with_concurrency(n).wf(),
        b.with_prefetch(p).wf(),
        !b.prefetch_set ==> b.limit() == as_prefetch(b.concurrency),
        !b.prefetch_set ==> !b.with_concurrency(n).prefetch_set,
        !b.prefetch_set && 1 <= n <= u32::MAX ==> b.with_concurrency(n).limit() == n,
        b.with_prefetch(p).limit() == p,
        b.prefetch_set ==> b.with_concurrency(n).limit() == b.limit(),
        b.prefetch_set ==> b.with_concurrency(n).prefetch_set,
{
}

} // verus!
