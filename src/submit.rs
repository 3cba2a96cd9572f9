//! The session token and the two payloads posted to the score service.
use vstd::prelude::*;

use crate::score::{
    Accuracy,
    AccuracyError,
    Hit,
    accuracy_of,
    scaled_percent,
    calculate_accuracy,
    listed_mods,
    mods_to_string,
    percent_text,
    MOD_COUNT,
};
use crate::text::{json_escape, join_commas, push_json_escaped, push_signed_decimal, signed_decimal};

verus! {

/// The login state threaded through submissions.
pub struct Session {
    pub token: Option<String>,
}

impl Session {
    pub fn new() -> (r: Session)
        ensures
            r.token.is_none(),
    {
        Session { token: None }
    }
}

/// Stores the token given at login, replacing any earlier one.
pub fn set_token(session: &mut Session, new_token: String)
    ensures
        final(session).token == Some(new_token),
{
    session.token = Some(new_token);
}

/// The current token, if logged in.
pub fn get_token(session: &Session) -> (r: Option<String>)
    ensures
        r matches Some(t) ==> session.token matches Some(s) && t@ == s@,
        r.is_none() == session.token.is_none(),
{
    match &session.token {
        Some(t) => Some(t.clone()),
        None => None,
    }
}

/// What the result screen shows of a finished play.
pub struct ResultRecord {
    pub username: String,
    pub mode: u8,
    pub max_combo: i16,
    pub score: i32,
    pub hit: Hit,
    pub mods: u32,
}

impl ResultRecord {
    pub open spec fn spec_accuracy(&self) -> Result<Accuracy, AccuracyError> {
        accuracy_of(self.mode, self.hit)
    }

    /// The play's accuracy by the formula of its mode.
    pub fn accuracy(&self) -> (r: Result<Accuracy, AccuracyError>)
        ensures
            r == self.spec_accuracy(),
    {
        calculate_accuracy(
            self.mode,
            self.hit._300,
            self.hit._100,
            self.hit._50,
            self.hit._geki,
            self.hit._katu,
            self.hit._miss,
        )
    }
}

#[derive(Debug, PartialEq, Eq, Structural, Clone, Copy)]
pub enum SubmitError {
    /// Nobody is logged in.
    NoToken,
    /// The result has no accuracy.
    Accuracy(AccuracyError),
}

/// Body of the request that announces a beatmap; both values are JSON strings.
pub open spec fn beatmap_request_text(token: Seq<char>, checksum: Seq<char>) -> Seq<char> {
    "{\"token\": \""@ + json_escape(token) + "\",\"map\": {\"checkSum\": \""@ + json_escape(
        checksum,
    ) + "\"}}"@
}

/// Body of the request that submits a score, with the accuracy already
/// written; the token and checksum are JSON strings.
pub open spec fn score_text(
    token: Seq<char>,
    checksum: Seq<char>,
    r: ResultRecord,
    accuracy: Seq<char>,
) -> Seq<char> {
    "{\"token\": \""@ + json_escape(token) + "\", \"map\": {\"checkSum\": \""@ + json_escape(
        checksum,
    )
        + "\"}, \"score\": {\"devServer\": \"bancho\",\"scorePoint\": "@ + signed_decimal(
        r.score as int,
    ) + ", \"accuracy\": "@ + accuracy + ",\"marvelous\": "@ + signed_decimal(r.hit._geki as int)
        + ",\"perfect\": "@ + signed_decimal(r.hit._300 as int) + ",\"great\": "@
        + signed_decimal(r.hit._katu as int) + ",\"good\": "@ + signed_decimal(r.hit._100 as int)
        + ",\"bad\": "@ + signed_decimal(r.hit._50 as int) + ",\"miss\": "@ + signed_decimal(
        r.hit._miss as int,
    ) + ",\"modList\": \""@ + join_commas(listed_mods(r.mods, MOD_COUNT as int))
        + "\",\"maxCombo\": "@ + signed_decimal(r.max_combo as int)
        + "}, \"pc\": {\"macaddr\": \"temp\",\"hwid\": \"temp\"} }"@
}

/// The body announcing the beatmap with checksum `checksum`; fails only when
/// nobody is logged in.
pub fn beatmap_request(session: &Session, checksum: &str) -> (r: Result<String, SubmitError>)
    ensures
        session.token.is_none() ==> r == Err::<String, SubmitError>(SubmitError::NoToken),
        session.token matches Some(t) ==> (r matches Ok(body) && body@ == beatmap_request_text(
            t@,
            checksum@,
        )),
{
    match &session.token {
        None => Err(SubmitError::NoToken),
        Some(token) => {
            let mut body = String::from_str("{\"token\": \"");
            push_json_escaped(&mut body, token.as_str());
            body.append("\",\"map\": {\"checkSum\": \"");
            push_json_escaped(&mut body, checksum);
            body.append("\"}}");
            assert(body@ =~= beatmap_request_text(token@, checksum@));
            Ok(body)
        },
    }
}

fn append_field(body: &mut String, label: &str, value: i64)
    ensures
        final(body)@ == old(body)@ + label@ + signed_decimal(value as int),
{
    body.append(label);
    push_signed_decimal(body, value);
    assert(final(body)@ =~= old(body)@ + label@ + signed_decimal(value as int));
}

/// The body submitting `record` for the beatmap with checksum `checksum`,
/// with the accuracy as a percentage. Fails when nobody is logged in or when
/// the record has no accuracy.
pub fn score_submission(session: &Session, checksum: &str, record: &ResultRecord) -> (r: Result<
    String,
    SubmitError,
>)
    ensures
        session.token.is_none() ==> r == Err::<String, SubmitError>(SubmitError::NoToken),
        session.token.is_some() ==> (record.spec_accuracy() matches Err(e) ==> r == Err::<
            String,
            SubmitError,
        >(SubmitError::Accuracy(e))),
        session.token matches Some(t) ==> (record.spec_accuracy() matches Ok(a) ==> (r matches Ok(
            body,
        ) && body@ == score_text(
            t@,
            checksum@,
            *record,
            percent_text(scaled_percent(a)),
        ))),
{
    let token = match &session.token {
        None => {
            return Err(SubmitError::NoToken);
        },
        Some(t) => t,
    };
    let accuracy = match record.accuracy() {
        Err(e) => {
            return Err(SubmitError::Accuracy(e));
        },
        Ok(a) => a,
    };
    let percent = accuracy.percent_string();
    let mods = mods_to_string(record.mods);
    let mut body = String::from_str("{\"token\": \"");
    push_json_escaped(&mut body, token.as_str());
    body.append("\", \"map\": {\"checkSum\": \"");
    push_json_escaped(&mut body, checksum);
    append_field(
        &mut body,
        "\"}, \"score\": {\"devServer\": \"bancho\",\"scorePoint\": ",
        record.score as i64,
    );
    body.append(", \"accuracy\": ");
    body.append(percent.as_str());
    append_field(&mut body, ",\"marvelous\": ", record.hit._geki as i64);
    append_field(&mut body, ",\"perfect\": ", record.hit._300 as i64);
    append_field(&mut body, ",\"great\": ", record.hit._katu as i64);
    append_field(&mut body, ",\"good\": ", record.hit._100 as i64);
    append_field(&mut body, ",\"bad\": ", record.hit._50 as i64);
    append_field(&mut body, ",\"miss\": ", record.hit._miss as i64);
    body.append(",\"modList\": \"");
    body.append(mods.as_str());
    append_field(&mut body, "\",\"maxCombo\": ", record.max_combo as i64);
    body.append("}, \"pc\": {\"macaddr\": \"temp\",\"hwid\": \"temp\"} }");
    assert(body@ =~= score_text(token@, checksum@, *record, percent@));
    Ok(body)
}

} // verus!
