//! Client-side logic for an online judge's unofficial web endpoints.
//!
//! The crate holds the decision logic of three flows — the login handshake,
//! the score-polling loop, and the top-score aggregation — as verified state
//! machines and pure functions over plain values. Network transport, JSON
//! field extraction and file I/O are left to an unverified driver that feeds
//! events into the machines defined here.

pub mod config;
pub mod login;
pub mod retry;
pub mod score;
pub mod session;
pub mod solve;
pub mod strutil;
pub mod topscore;

pub use config::parse_config;
pub use config::render_config;
pub use login::check_authenticated_id;
pub use login::extract_user_id;
pub use login::login_step;
pub use login::try_get_ssid;
pub use login::LoginError;
pub use login::LoginEvent;
pub use login::LoginState;
pub use login::SubmitReply;
pub use retry::retry_start;
pub use retry::retry_step;
pub use retry::RetryState;
pub use score::classify_score_reply;
pub use score::poll_start;
pub use score::poll_step;
pub use score::GetScoreError;
pub use score::PollState;
pub use score::ScoreStatus;
pub use score::POLL_INTERVAL_MILLIS;
pub use score::POLL_TRIES;
pub use session::PbinfoUser;
pub use session::PbinfoUserError;
pub use session::SessionView;
pub use solve::choose_solution_source;
pub use solve::SolutionSource;
pub use solve::SolveError;
pub use topscore::compute_scores;
pub use topscore::has_perfect_score;
pub use topscore::top_score_step;
pub use topscore::SolutionListReply;
pub use topscore::TopScoreEvent;
pub use topscore::TopScoreState;
pub use topscore::TopSolutionResponseType;
pub use strutil::parse_i64;
pub use strutil::strip_quotes;
pub use strutil::i64_to_string;
pub use strutil::ParseIntFailure;
