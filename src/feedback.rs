//! The topics a user can give feedback on.
use vstd::prelude::*;

use crate::text::same_text;

verus! {

#[derive(Debug, Clone, Copy, PartialEq, Eq, Structural)]
pub enum FeedbackTopic {
    HseGreen,
    Bot,
    SuggestEcoInitiative,
    ReportGarbageDump,
    Other,
}

/// The text that names a feedback topic could not be read.
#[derive(Debug, Clone, Copy, PartialEq, Eq, Structural)]
pub struct InvalidTopicStrError;

/// The text form of a topic.
pub open spec fn topic_text(t: FeedbackTopic) -> Seq<char> {
    match t {
        FeedbackTopic::HseGreen => "hsegreen"@,
        FeedbackTopic::Bot => "bot"@,
        FeedbackTopic::SuggestEcoInitiative => "suggest"@,
        FeedbackTopic::ReportGarbageDump => "report-dump"@,
        FeedbackTopic::Other => "other"@,
    }
}

impl FeedbackTopic {
    pub fn to_string(&self) -> (r: String)
        ensures
            r@ == topic_text(*self),
    {
        match self {
            FeedbackTopic::HseGreen => String::from_str("hsegreen"),
            FeedbackTopic::Bot => String::from_str("bot"),
            FeedbackTopic::SuggestEcoInitiative => String::from_str("suggest"),
            FeedbackTopic::ReportGarbageDump => String::from_str("report-dump"),
            FeedbackTopic::Other => String::from_str("other"),
        }
    }

    /// Reads the text form of a topic.
    pub fn parse(s: &str) -> (r: Result<FeedbackTopic, InvalidTopicStrError>)
        ensures
            r matches Ok(t) ==> topic_text(t) == s@,
            r is Err ==> forall|t: FeedbackTopic| topic_text(t) != s@,
    {
        if same_text(s, "hsegreen") {
            Ok(FeedbackTopic::HseGreen)
        } else if same_text(s, "bot") {
            Ok(FeedbackTopic::Bot)
        } else if same_text(s, "suggest") {
            Ok(FeedbackTopic::SuggestEcoInitiative)
        } else if same_text(s, "report-dump") {
            Ok(FeedbackTopic::ReportGarbageDump)
        } else if same_text(s, "other") {
            Ok(FeedbackTopic::Other)
        } else {
            Err(InvalidTopicStrError)
        }
    }
}

} // verus!
