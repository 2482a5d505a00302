//! The data model: maintenance records, job templates, and the error type.

use vstd::prelude::*;
use crate::status::JobStatus;

verus! {

/// A reusable job template: a named container image and tag that maintenance
/// records reference by `Job::id`. Templates are unique on
/// (name, docker_image, docker_image_tag).
#[derive(PartialEq, Debug)]
pub struct Job {
    pub id: i32,
    pub name: String,
    pub version: Option<String>,
    pub docker_image: String,
    pub docker_image_tag: String,
}

/// One requested maintenance operation, tracked through the status state
/// machine. Timestamps are seconds since the epoch; `uuid` is the
/// client-facing identity and is unique in the store.
#[derive(PartialEq, Debug)]
pub struct Maintenance {
    /// Internal numeric identity, assigned by the storage collaborator.
    pub id: Option<i32>,
    /// Externally supplied identity; unique, never reassigned.
    pub uuid: String,
    pub name: Option<String>,
    pub created_at: i64,
    pub updated_at: Option<i64>,
    /// Incremented exactly once per observed failure; reset by enqueue.
    pub failed_attempts: i32,
    pub status: JobStatus,
    /// Not eligible for dispatch before this instant; a record without one
    /// is never due.
    pub scheduled_for: Option<i64>,
    /// Carried for display only; not enforced by the core.
    pub downtime_window_start: Option<i64>,
    pub downtime_window_end: Option<i64>,
    /// Reference to the `Job` template this record dispatches.
    pub job_id: i32,
}

impl Maintenance {
    /// Field-level validity of one record.
    pub open spec fn wf(self) -> bool {
        self.failed_attempts >= 0
    }
}

impl Clone for Job {
    fn clone(&self) -> (res: Self)
        ensures
            res == *self,
    {
        Job {
            id: self.id,
            name: self.name.clone(),
            version: match &self.version {
                Some(v) => Some(v.clone()),
                None => None,
            },
            docker_image: self.docker_image.clone(),
            docker_image_tag: self.docker_image_tag.clone(),
        }
    }
}

impl Clone for Maintenance {
    fn clone(&self) -> (res: Self)
        ensures
            res == *self,
    {
        Maintenance {
            id: self.id,
            uuid: self.uuid.clone(),
            name: match &self.name {
                Some(n) => Some(n.clone()),
                None => None,
            },
            created_at: self.created_at,
            updated_at: self.updated_at,
            failed_attempts: self.failed_attempts,
            status: self.status,
            scheduled_for: self.scheduled_for,
            downtime_window_start: self.downtime_window_start,
            downtime_window_end: self.downtime_window_end,
            job_id: self.job_id,
        }
    }
}

/// The errors the queue operations surface.
#[derive(Clone, PartialEq, Eq, Debug)]
pub enum Error {
    /// The durable storage failed (constraint violation, connectivity).
    Database(String),
    /// An unexpected or unclassified failure.
    Internal(String),
    /// A lookup that semantically requires existence found nothing.
    NotFound(String),
}

} // verus!
