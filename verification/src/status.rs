//! The lifecycle status of a maintenance record and its legal transitions.

use vstd::prelude::*;

verus! {

/// The status a maintenance record can be in. It is persisted as text;
/// `text` and `parse` give the stored form and read it back.
#[derive(Clone, Copy, PartialEq, Eq, Structural, Debug)]
pub enum JobStatus {
    /// Created externally, never submitted to the queue; inert.
    NotQueued,
    /// Waiting to be claimed once its scheduled time is due.
    Queued,
    /// Claimed by a worker; a task lifecycle is in flight.
    Running,
    /// The last lifecycle run failed; terminal unless re-enqueued.
    Failed,
    /// The lifecycle run succeeded; terminal.
    Finished,
}

impl JobStatus {
    /// The text under which this status is persisted.
    pub open spec fn text_spec(self) -> Seq<char> {
        match self {
            JobStatus::NotQueued => "not_queued"@,
            JobStatus::Queued => "queued"@,
            JobStatus::Running => "running"@,
            JobStatus::Failed => "failed"@,
            JobStatus::Finished => "finished"@,
        }
    }

    /// Renders the status as its persisted text.
    pub fn text(&self) -> (res: String)
        ensures
            res@ == self.text_spec(),
    {
        match self {
            JobStatus::NotQueued => "not_queued".to_owned(),
            JobStatus::Queued => "queued".to_owned(),
            JobStatus::Running => "running".to_owned(),
            JobStatus::Failed => "failed".to_owned(),
            JobStatus::Finished => "finished".to_owned(),
        }
    }

    /// Which status a given persisted text denotes, if any.
    pub open spec fn parse_spec(s: Seq<char>) -> Option<JobStatus> {
        if s == "not_queued"@ {
            Some(JobStatus::NotQueued)
        } else if s == "queued"@ {
            Some(JobStatus::Queued)
        } else if s == "running"@ {
            Some(JobStatus::Running)
        } else if s == "failed"@ {
            Some(JobStatus::Failed)
        } else if s == "finished"@ {
            Some(JobStatus::Finished)
        } else {
            None
        }
    }

    /// Reads a persisted status text back; any other text is rejected.
    pub fn parse(input: &str) -> (res: Result<JobStatus, ()>)
        ensures
            match res {
                Ok(st) => Self::parse_spec(input@) == Some(st),
                Err(()) => Self::parse_spec(input@) is None,
            },
    {
        let owned = input.to_owned();
        if owned == "not_queued".to_owned() {
            Ok(JobStatus::NotQueued)
        } else if owned == "queued".to_owned() {
            Ok(JobStatus::Queued)
        } else if owned == "running".to_owned() {
            Ok(JobStatus::Running)
        } else if owned == "failed".to_owned() {
            Ok(JobStatus::Failed)
        } else if owned == "finished".to_owned() {
            Ok(JobStatus::Finished)
        } else {
            Err(())
        }
    }

    /// A status after which no further transition is legal.
    pub open spec fn is_terminal(self) -> bool {
        self == JobStatus::Finished
    }

    /// The transition relation of the state machine: a claim moves a record
    /// from `Queued` to `Running`; a lifecycle run moves it from `Running`
    /// to `Finished` on success or to `Failed` on failure. Nothing else.
    pub open spec fn transition_allowed(self, to: JobStatus) -> bool {
        ||| (self == JobStatus::Queued && to == JobStatus::Running)
        ||| (self == JobStatus::Running && to == JobStatus::Finished)
        ||| (self == JobStatus::Running && to == JobStatus::Failed)
    }
}

/// Round trip: the persisted text of every status parses back to it.
pub proof fn lemma_text_parse_round_trip(st: JobStatus)
    ensures
        JobStatus::parse_spec(st.text_spec()) == Some(st),
{
    reveal_strlit("not_queued");
    reveal_strlit("queued");
    reveal_strlit("running");
    reveal_strlit("failed");
    reveal_strlit("finished");
    assert("not_queued"@.len() == 10);
    assert("queued"@.len() == 6);
    assert("running"@.len() == 7);
    assert("failed"@.len() == 6);
    assert("finished"@.len() == 8);
    assert("queued"@[0] == 'q');
    assert("failed"@[0] == 'f');
    assert("finished"@[0] == 'f');
    assert("failed"@[1] == 'a');
    assert("finished"@[1] == 'i');
}

/// Round trip, the other way: any text that parses renders back to itself,
/// so parsing loses nothing.
pub proof fn lemma_parse_text_round_trip(s: Seq<char>, st: JobStatus)
    ensures
        JobStatus::parse_spec(s) == Some(st) ==> st.text_spec() == s,
{
}

/// Status monotonicity at the state-machine level: no transition leads out
/// of a terminal status.
pub proof fn lemma_terminal_is_final(from: JobStatus, to: JobStatus)
    ensures
        from.is_terminal() ==> !from.transition_allowed(to),
{
}

} // verus!
