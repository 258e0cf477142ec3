//! The upload client's decision logic: resolving its configuration from
//! environment-style settings, classifying each attempt's outcome, and the
//! retry policy. The caller performs the HTTP POST and the waiting and
//! feeds every attempt's outcome back in as an event; what to do next, what
//! to log and what to hand to the caller is decided (and verified) here.

use crate::text::{quoted, spec_digits, spec_quoted, strings_view, u64_string};
use vstd::prelude::*;
use vstd::string::*;

verus! {

/// Seconds to wait between attempts while the store is unreachable.
pub const RETRY_DELAY_SECS: u64 = 10;

/// The client's connection settings.
pub struct UploadConfig {
    pub url: String,
    pub user: String,
    pub pass: String,
    pub ns: String,
    pub db: String,
}

/// The models of a settings list, in order.
pub open spec fn vars_view(s: Seq<(String, String)>) -> Seq<(Seq<char>, Seq<char>)> {
    s.map_values(|p: (String, String)| (p.0@, p.1@))
}

/// The value of the last setting named `key`, or `dflt` where there is
/// none.
pub open spec fn spec_setting(
    vars: Seq<(Seq<char>, Seq<char>)>,
    key: Seq<char>,
    dflt: Seq<char>,
) -> Seq<char>
    decreases vars.len(),
{
    if vars.len() == 0 {
        dflt
    } else if vars.last().0 == key {
        vars.last().1
    } else {
        spec_setting(vars.drop_last(), key, dflt)
    }
}

/// Resolves the client's settings from a list of environment-style
/// variables: the last `DB_URL`, `DB_USER`, `DB_PASS`, `DB_NS` and `DB_DB`
/// entries win, and each falls back to its hardcoded default where absent.
pub fn resolve_config(vars: &Vec<(String, String)>) -> (r: UploadConfig)
    ensures
        r.url@ == spec_setting(vars_view(vars@), "DB_URL"@, "http://localhost:8000/sql"@),
        r.user@ == spec_setting(vars_view(vars@), "DB_USER"@, "root"@),
        r.pass@ == spec_setting(vars_view(vars@), "DB_PASS"@, "root"@),
        r.ns@ == spec_setting(vars_view(vars@), "DB_NS"@, "test"@),
        r.db@ == spec_setting(vars_view(vars@), "DB_DB"@, "test"@),
{
    let k_url = "DB_URL".to_owned();
    let k_user = "DB_USER".to_owned();
    let k_pass = "DB_PASS".to_owned();
    let k_ns = "DB_NS".to_owned();
    let k_db = "DB_DB".to_owned();
    let mut url = "http://localhost:8000/sql".to_owned();
    let mut user = "root".to_owned();
    let mut pass = "root".to_owned();
    let mut ns = "test".to_owned();
    let mut db = "test".to_owned();
    let mut i: usize = 0;
    proof {
        assert(vars_view(vars@).subrange(0, 0) =~= Seq::<(Seq<char>, Seq<char>)>::empty());
    }
    while i < vars.len()
        invariant
            i <= vars@.len(),
            k_url@ == "DB_URL"@,
            k_user@ == "DB_USER"@,
            k_pass@ == "DB_PASS"@,
            k_ns@ == "DB_NS"@,
            k_db@ == "DB_DB"@,
            url@ == spec_setting(
                vars_view(vars@).subrange(0, i as int),
                "DB_URL"@,
                "http://localhost:8000/sql"@,
            ),
            user@ == spec_setting(vars_view(vars@).subrange(0, i as int), "DB_USER"@, "root"@),
            pass@ == spec_setting(vars_view(vars@).subrange(0, i as int), "DB_PASS"@, "root"@),
            ns@ == spec_setting(vars_view(vars@).subrange(0, i as int), "DB_NS"@, "test"@),
            db@ == spec_setting(vars_view(vars@).subrange(0, i as int), "DB_DB"@, "test"@),
        decreases vars@.len() - i,
    {
        let pair = &vars[i];
        if pair.0 == k_url {
            url = pair.1.clone();
        } else if pair.0 == k_user {
            user = pair.1.clone();
        } else if pair.0 == k_pass {
            pass = pair.1.clone();
        } else if pair.0 == k_ns {
            ns = pair.1.clone();
        } else if pair.0 == k_db {
            db = pair.1.clone();
        }
        proof {
            reveal_strlit("DB_URL");
            reveal_strlit("DB_USER");
            reveal_strlit("DB_PASS");
            reveal_strlit("DB_NS");
            reveal_strlit("DB_DB");
            assert("DB_URL"@.len() == 6 && "DB_USER"@.len() == 7 && "DB_PASS"@.len() == 7
                && "DB_NS"@.len() == 5 && "DB_DB"@.len() == 5);
            assert("DB_USER"@[3] == 'U' && "DB_PASS"@[3] == 'P');
            assert("DB_NS"@[3] == 'N' && "DB_DB"@[3] == 'D');
            assert("DB_USER"@ != "DB_PASS"@);
            assert("DB_NS"@ != "DB_DB"@);
            let pre = vars_view(vars@).subrange(0, i as int);
            let post = vars_view(vars@).subrange(0, i as int + 1);
            assert(post.drop_last() =~= pre);
            assert(post.last() == (vars@[i as int].0@, vars@[i as int].1@));
        }
        i = i + 1;
    }
    proof {
        assert(vars_view(vars@).subrange(0, vars@.len() as int) =~= vars_view(vars@));
    }
    UploadConfig { url, user, pass, ns, db }
}

/// One attempt's outcome, as the caller saw it: the transport failed before
/// any response came, or a response arrived, with its status code, a
/// printed dump of the whole response, and the body text (or the error met
/// reading the body).
pub enum UploadEvent {
    TransportFailure,
    Response { status: u16, dump: String, body: Result<String, String> },
}

/// The model of an attempt's outcome.
pub enum UploadEventV {
    TransportFailure,
    Response { status: u16, dump: Seq<char>, body: Result<Seq<char>, Seq<char>> },
}

impl View for UploadEvent {
    type V = UploadEventV;

    open spec fn view(&self) -> UploadEventV {
        match self {
            UploadEvent::TransportFailure => UploadEventV::TransportFailure,
            UploadEvent::Response { status, dump, body } => UploadEventV::Response {
                status: *status,
                dump: dump@,
                body: match body {
                    Ok(t) => Ok(t@),
                    Err(e) => Err(e@),
                },
            },
        }
    }
}

/// A finished call's failure: the response body could not be read as text
/// after a successful status.
#[derive(Debug, PartialEq)]
pub enum UploadError {
    BodyReadFailure(String),
}

/// A finished call: the status that ended the retrying, what the caller is
/// handed (the body text — also for a failed status, whose body is passed
/// through as the call's output), and the diagnostic lines to append to
/// the error log, in order.
pub struct Finished {
    pub status: u16,
    pub body: Result<String, UploadError>,
    pub log_lines: Vec<String>,
}

/// The model of a finished call.
pub struct FinishedV {
    pub status: u16,
    pub body: Result<Seq<char>, Seq<char>>,
    pub log_lines: Seq<Seq<char>>,
}

impl View for Finished {
    type V = FinishedV;

    open spec fn view(&self) -> FinishedV {
        FinishedV {
            status: self.status,
            body: match &self.body {
                Ok(t) => Ok(t@),
                Err(UploadError::BodyReadFailure(m)) => Err(m@),
            },
            log_lines: strings_view(self.log_lines@),
        }
    }
}

/// A successful HTTP status.
pub open spec fn spec_is_success(status: u16) -> bool {
    200 <= status < 300
}

/// The diagnostic lines for a failed status, in order: the status code,
/// the printed response, the body text (or the error met reading it), the
/// request body quoted, and the request body plain.
pub open spec fn spec_log_lines(
    request: Seq<char>,
    status: u16,
    dump: Seq<char>,
    text: Seq<char>,
) -> Seq<Seq<char>> {
    seq![
        spec_digits(status as nat),
        "Error uploading to database: "@ + dump,
        text,
        spec_quoted(request),
        request,
    ]
}

/// What a response ends the call with. A successful status hands the body
/// through, or reports the failure to read it; a failed status is logged
/// in full, and its body text (or read error) is still handed to the
/// caller as the call's output.
pub open spec fn spec_classify(
    request: Seq<char>,
    status: u16,
    dump: Seq<char>,
    body: Result<Seq<char>, Seq<char>>,
) -> FinishedV {
    if spec_is_success(status) {
        FinishedV { status, body, log_lines: Seq::empty() }
    } else {
        let text = match body {
            Ok(t) => t,
            Err(e) => e,
        };
        FinishedV { status, body: Ok(text), log_lines: spec_log_lines(request, status, dump, text) }
    }
}

/// Ends the call for a response that arrived: on a successful status the
/// body (or its read failure) is the outcome; on any other status the
/// diagnostic lines are produced and the body text is passed through as
/// the outcome.
pub fn classify_response(request: &str, status: u16, dump: String, body: Result<String, String>) -> (r:
    Finished)
    ensures
        r@ == spec_classify(
            request@,
            status,
            dump@,
            match &body {
                Ok(t) => Ok(t@),
                Err(e) => Err(e@),
            },
        ),
{
    if 200 <= status && status < 300 {
        let out = match body {
            Ok(t) => Ok(t),
            Err(e) => Err(UploadError::BodyReadFailure(e)),
        };
        let lines: Vec<String> = Vec::new();
        proof {
            assert(strings_view(lines@) =~= Seq::<Seq<char>>::empty());
        }
        Finished { status, body: out, log_lines: lines }
    } else {
        let text = match body {
            Ok(t) => t,
            Err(e) => e,
        };
        let mut lines: Vec<String> = Vec::new();
        lines.push(u64_string(status as u64));
        let mut dump_line = "Error uploading to database: ".to_owned();
        dump_line.append(dump.as_str());
        lines.push(dump_line);
        lines.push(text.clone());
        lines.push(quoted(request));
        lines.push(request.to_owned());
        proof {
            assert(strings_view(lines@) =~= spec_log_lines(request@, status, dump@, text@));
        }
        Finished { status, body: Ok(text), log_lines: lines }
    }
}

/// What the client does next: wait and try the same request again, or
/// finish.
pub enum UploadStep {
    Retry { delay_secs: u64 },
    Done(Finished),
}

/// One turn of the retry loop: a transport failure asks for another
/// attempt after the fixed delay, indefinitely; a response ends the call,
/// classified by `spec_classify`.
pub fn upload_step(request: &str, event: UploadEvent) -> (r: UploadStep)
    ensures
        event@ is TransportFailure ==> (r matches UploadStep::Retry { delay_secs }
            && delay_secs == RETRY_DELAY_SECS),
        (match event@ {
            UploadEventV::Response { status, dump, body } => r matches UploadStep::Done(f) && f@
                == spec_classify(request@, status, dump, body),
            UploadEventV::TransportFailure => true,
        }),
{
    match event {
        UploadEvent::TransportFailure => UploadStep::Retry { delay_secs: RETRY_DELAY_SECS },
        UploadEvent::Response { status, dump, body } => UploadStep::Done(
            classify_response(request, status, dump, body),
        ),
    }
}

/// The models of an event list, in order.
pub open spec fn events_view(s: Seq<UploadEvent>) -> Seq<UploadEventV> {
    s.map_values(|e: UploadEvent| e@)
}

/// The position of the first event that is not a transport failure, if
/// any.
pub open spec fn first_decisive(events: Seq<UploadEventV>) -> Option<int>
    decreases events.len(),
{
    if events.len() == 0 {
        None
    } else if !(events[0] is TransportFailure) {
        Some(0)
    } else {
        match first_decisive(events.subrange(1, events.len() as int)) {
            Some(k) => Some(k + 1),
            None => None,
        }
    }
}

proof fn lemma_first_decisive_at(events: Seq<UploadEventV>, i: int)
    requires
        0 <= i < events.len(),
        !(events[i] is TransportFailure),
        forall|j: int| 0 <= j < i ==> events[j] is TransportFailure,
    ensures
        first_decisive(events) == Some(i),
    decreases i,
{
    if i > 0 {
        lemma_first_decisive_at(events.subrange(1, events.len() as int), i - 1);
    }
}

proof fn lemma_first_decisive_none(events: Seq<UploadEventV>)
    requires
        forall|j: int| 0 <= j < events.len() ==> events[j] is TransportFailure,
    ensures
        first_decisive(events) is None,
    decreases events.len(),
{
    if events.len() > 0 {
        lemma_first_decisive_none(events.subrange(1, events.len() as int));
    }
}

/// Runs the whole retry loop over a given list of attempt outcomes: every
/// transport failure is retried past, and the first event that is not a
/// transport failure ends the call, exactly as `spec_classify` says — the
/// earlier failures leave no trace in the outcome. `None` means every
/// attempt failed at the transport and the client is still retrying.
pub fn process_events(request: &str, events: &Vec<UploadEvent>) -> (r: Option<Finished>)
    ensures
        (match first_decisive(events_view(events@)) {
            Some(k) => r matches Some(f) && (match events_view(events@)[k] {
                UploadEventV::Response { status, dump, body } => f@ == spec_classify(
                    request@,
                    status,
                    dump,
                    body,
                ),
                UploadEventV::TransportFailure => false,
            }),
            None => r is None,
        }),
{
    let mut i: usize = 0;
    while i < events.len()
        invariant
            i <= events@.len(),
            forall|j: int| 0 <= j < i ==> (#[trigger] events_view(events@)[j]) is TransportFailure,
        decreases events@.len() - i,
    {
        match &events[i] {
            UploadEvent::TransportFailure => {
                i = i + 1;
            },
            UploadEvent::Response { status, dump, body } => {
                let d = dump.clone();
                let b = match body {
                    Ok(t) => Ok(t.clone()),
                    Err(e) => Err(e.clone()),
                };
                proof {
                    lemma_first_decisive_at(events_view(events@), i as int);
                }
                return Some(classify_response(request, *status, d, b));
            },
        }
    }
    proof {
        lemma_first_decisive_none(events_view(events@));
    }
    None
}

} // verus!
