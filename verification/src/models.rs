//! The data that the judge's backend sends, as the library reads it.
//! Instants are held as chrono holds them: whole seconds since the Unix epoch (UTC) and the
//! nanoseconds past them; fractional scores are carried as the text that their `Display` gives.
use vstd::prelude::*;

verus! {

/// An instant: whole seconds since the Unix epoch (UTC) and the nanoseconds past them, as
/// chrono's `timestamp()` and `timestamp_subsec_nanos()` give them; the nanoseconds reach
/// 1_000_000_000 or more only within a leap second.
#[derive(Clone, Copy, Debug, PartialEq, Eq, Structural)]
pub struct Timestamp {
    pub secs: i64,
    pub nanos: u32,
}

/// A user's rights.
#[derive(Clone, Copy, Debug, PartialEq, Eq, Structural)]
pub enum AdminLevel {
    User,
    Admin,
    Owner,
}

/// A programming language of a submission.
#[derive(Clone, Copy, Debug, PartialEq, Eq, Structural)]
pub enum Language {
    C,
    Cpp,
    Go,
    Rust,
    Python,
    FreePascal,
    Unknown,
}

/// How a problem is run.
#[derive(Clone, Copy, Debug, PartialEq, Eq, Structural)]
pub enum ProblemType {
    Default,
    Interactive,
    RunTwice,
    InteractiveRunTwice,
    RunTwiceFirstInteractive,
    RunTwiceSecondInteractive,
}

/// How a problem's subgroups are scored.
#[derive(Clone, Copy, Debug, PartialEq, Eq, Structural)]
pub enum ProblemTestingType {
    Ioi,
    IoiMergeSubgroups,
}

/// Whether a subgroup holds the samples or scored tests.
#[derive(Clone, Copy, Debug, PartialEq, Eq, Structural)]
pub enum SubgroupType {
    Sample,
    Main,
}

/// The outcome of one test or one subgroup.
#[derive(Clone, Copy, Debug, PartialEq, Eq, Structural)]
pub enum Verdict {
    Accepted,
    RuntimeError,
    TimeLimitExceeded,
    MemoryLimitExceeded,
    SecurityError,
    WrongAnswer,
    PresentationError,
    Skipped,
    Testing,
    Fail,
}

/// The outcome of a whole submission.
#[derive(Clone, Copy, Debug, PartialEq, Eq, Structural)]
pub enum TestingVerdict {
    Accepted,
    PartialSolution,
    Pending,
    Compiling,
    CompilationError,
    Testing,
    Fail,
}

/// What anyone may see of a user.
#[derive(Clone, Debug)]
pub struct PublicUserData {
    pub id: i64,
    pub login: String,
    pub admin_level: AdminLevel,
}

/// What a user and the owners see of a user.
#[derive(Clone, Debug)]
pub struct PrivateUserData {
    pub id: i64,
    pub login: String,
    pub admin_level: AdminLevel,
    pub created_at: Timestamp,
}

/// A contest.
#[derive(Clone, Debug)]
pub struct PublicContestConfig {
    pub id: i64,
    pub owner_id: Option<i64>,
    pub owner_login: Option<String>,
    pub name_ru: String,
    pub name_en: String,
    pub starts_at: Timestamp,
    pub finishes_at: Timestamp,
    pub statements_url_ru: String,
    pub statements_url_en: String,
    pub editorial_url_ru: String,
    pub editorial_url_en: String,
    pub hidden: bool,
    pub upsolving_enabled: bool,
    pub solutions_hidden: bool,
    pub leaderboard_hidden: bool,
    pub co_authors: Vec<i64>,
    pub created_at: Timestamp,
}

/// An announcement in a contest.
#[derive(Clone, Debug)]
pub struct ContestPost {
    pub id: i64,
    pub owner_id: i64,
    pub owner_login: String,
    pub contest_id: i64,
    pub title_ru: String,
    pub title_en: String,
    pub text_ru: String,
    pub text_en: String,
    pub created_at: Timestamp,
}

/// A group of tests of a problem.
#[derive(Clone, Debug)]
pub struct Subgroup {
    pub subgroup_type: SubgroupType,
    pub tests: Vec<i32>,
    pub score: Option<String>,
    pub score_per_test: Option<String>,
    pub depends_on: Vec<usize>,
}

/// A problem.
#[derive(Clone, Debug)]
pub struct PublicProblemConfig {
    pub id: i64,
    pub owner_id: Option<i64>,
    pub owner_login: Option<String>,
    pub name_ru: String,
    pub name_en: String,
    pub problem_type: ProblemType,
    pub testing_type: ProblemTestingType,
    pub contest_id: i64,
    pub index: i64,
    pub time_limit_ms: i32,
    pub memory_limit_mb: i32,
    pub subgroups: Vec<Subgroup>,
    pub created_at: Timestamp,
}

/// A question about a problem, and its answer (empty while there is none).
#[derive(Clone, Debug)]
pub struct ProblemQuestion {
    pub id: i64,
    pub owner_id: i64,
    pub owner_login: String,
    pub problem_id: i64,
    pub title: String,
    pub text: String,
    pub answer: String,
    pub created_at: Timestamp,
}

/// The result of a subgroup of a submission.
#[derive(Clone, Debug)]
pub struct SubgroupResult {
    pub verdict: Verdict,
    pub test: Option<i32>,
    pub score: Option<String>,
}

/// The result of a test of a submission.
#[derive(Clone, Debug)]
pub struct TestResult {
    pub verdict: Verdict,
    pub score: Option<String>,
}

/// A submission.
#[derive(Clone, Debug)]
pub struct Submission {
    pub id: i64,
    pub problem_id: i64,
    pub user_id: i64,
    pub user_login: String,
    pub language: Language,
    pub verdict: TestingVerdict,
    pub score: String,
    pub subgroups_results: Vec<SubgroupResult>,
    pub tests_results: Vec<TestResult>,
    pub created_at: Timestamp,
}

/// A row of a contest's leaderboard.
#[derive(Clone, Debug)]
pub struct LeaderboardRow {
    pub user_id: i64,
    pub user_login: String,
    pub scores: Vec<Option<String>>,
    pub total_score: String,
}

/// What a contest's live feed reports.
#[derive(Clone, Debug)]
pub enum ContestEvent {
    NewPost(ContestPost),
    PostUpdated(ContestPost),
    PostDeleted(i64),
    ContestUpdated(PublicContestConfig),
    ContestDeleted(i64),
    NewContest(PublicContestConfig),
    NewProblem(PublicProblemConfig),
    ProblemUpdated(PublicProblemConfig),
    ProblemDeleted(i64),
    NewProblemQuestion(ProblemQuestion),
    ProblemQuestionDeleted(i64),
    ProblemQuestionAnswered(ProblemQuestion),
}

/// A record that the lists of the state find again by an id.
pub trait Keyed {
    spec fn key(&self) -> i64;

    fn get_key(&self) -> (k: i64)
        ensures
            k == self.key(),
    ;
}

impl Keyed for PublicContestConfig {
    open spec fn key(&self) -> i64 {
        self.id
    }

    fn get_key(&self) -> (k: i64) {
        self.id
    }
}

impl Keyed for ContestPost {
    open spec fn key(&self) -> i64 {
        self.id
    }

    fn get_key(&self) -> (k: i64) {
        self.id
    }
}

impl Keyed for PublicProblemConfig {
    open spec fn key(&self) -> i64 {
        self.id
    }

    fn get_key(&self) -> (k: i64) {
        self.id
    }
}

impl Keyed for ProblemQuestion {
    open spec fn key(&self) -> i64 {
        self.id
    }

    fn get_key(&self) -> (k: i64) {
        self.id
    }
}

/// The file extension of a language's sources.
pub open spec fn file_ext_spec(language: Language) -> Seq<char> {
    match language {
        Language::C => "c"@,
        Language::Cpp => "cpp"@,
        Language::Go => "go"@,
        Language::Rust => "rs"@,
        Language::Python => "py"@,
        Language::FreePascal => "pas"@,
        Language::Unknown => "!!"@,
    }
}

impl Language {
    /// The file extension of the language's sources ("!!" for an unknown language).
    pub fn file_ext(&self) -> (r: &'static str)
        ensures
            r@ == file_ext_spec(*self),
    {
        match self {
            Language::C => "c",
            Language::Cpp => "cpp",
            Language::Go => "go",
            Language::Rust => "rs",
            Language::Python => "py",
            Language::FreePascal => "pas",
            Language::Unknown => "!!",
        }
    }
}

/// The name of a testing verdict as its `Display` writes it.
pub open spec fn testing_verdict_name(v: TestingVerdict) -> Seq<char> {
    match v {
        TestingVerdict::Accepted => "Ok"@,
        TestingVerdict::PartialSolution => "PartialSolution"@,
        TestingVerdict::Pending => "Pending"@,
        TestingVerdict::Compiling => "Compiling"@,
        TestingVerdict::CompilationError => "CompilationError"@,
        TestingVerdict::Testing => "Testing"@,
        TestingVerdict::Fail => "Fail"@,
    }
}

impl TestingVerdict {
    /// The verdict's name, as its `Display` writes it.
    pub fn to_text(&self) -> (r: String)
        ensures
            r@ == testing_verdict_name(*self),
    {
        let s = match self {
            TestingVerdict::Accepted => "Ok",
            TestingVerdict::PartialSolution => "PartialSolution",
            TestingVerdict::Pending => "Pending",
            TestingVerdict::Compiling => "Compiling",
            TestingVerdict::CompilationError => "CompilationError",
            TestingVerdict::Testing => "Testing",
            TestingVerdict::Fail => "Fail",
        };
        String::from_str(s)
    }
}

} // verus!
