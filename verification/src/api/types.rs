//! The records that are exchanged with the account service. They carry data only;
//! how they are written on the wire is the caller's business.

use vstd::prelude::*;

verus! {

/// The envelope of every answer of the service.
#[derive(Debug)]
pub struct ApiResponse<T> {
    pub status: i32,
    pub msg: String,
    pub data: Option<T>,
    pub code: Option<String>,
}

/// The answer to a registration.
#[derive(Debug)]
pub struct RegisterResponse {
    pub token: String,
    pub expires_time: i64,
}

/// The answer to a sign-in.
#[derive(Debug)]
pub struct LoginResponse {
    pub token: Option<String>,
    pub user_info: Option<UserInfo>,
}

/// What the service knows of a user.
#[derive(Debug)]
pub struct UserInfo {
    /// The user's whole quota.
    pub total_count: i32,
    /// How much of the quota is used.
    pub used_count: i32,
    /// When the membership ends.
    pub expire_time: String,
    /// The user's level.
    pub level: i32,
    /// Whether the membership has ended.
    pub is_expired: bool,
    pub username: String,
    /// The level, as a text.
    pub code_level: String,
    /// The state of the activation code.
    pub code_status: i32,
}

/// An account of the pool.
#[derive(Debug)]
pub struct AccountInfo {
    pub id: i32,
    pub account: String,
    pub password: String,
    pub token: String,
    pub usage_count: i32,
    pub status: i32,
    pub create_time: String,
    pub distributed_time: String,
    pub update_time: String,
}

/// The two things that sign an account in.
#[derive(Debug)]
pub struct AccountDetail {
    pub email: String,
    pub token: String,
}

/// A request to sign in.
#[derive(Debug)]
pub struct LoginRequest {
    pub account: String,
    pub password: String,
    pub spread: String,
}

/// A request to say whether a user exists.
#[derive(Debug)]
pub struct CheckUserRequest {
    pub email: String,
}

/// A request to send a verification code.
#[derive(Debug)]
pub struct SendCodeRequest {
    pub email: String,
    /// What the code is for: `register` or `reset`.
    pub kind: String,
}

/// A request to register.
#[derive(Debug)]
pub struct RegisterRequest {
    pub email: String,
    pub code: String,
    pub password: String,
    pub spread: String,
}

/// A request to set a new password.
#[derive(Debug)]
pub struct ResetPasswordRequest {
    pub email: String,
    pub code: String,
    pub password: String,
}

/// A request to redeem an activation code.
#[derive(Debug)]
pub struct ActivateRequest {
    pub code: String,
}

/// What a universal activation code grants.
#[derive(Debug)]
pub struct UniversalActivationConfig {
    /// Days added to the membership.
    pub membership_days: i32,
    /// Credits granted.
    pub credits_bonus: i32,
    /// Credits granted on top, by the higher cards.
    pub bonus_credits: i32,
    /// Levels added.
    pub level_increment: i32,
    /// The level that is not exceeded, if there is one.
    pub level_cap: Option<i32>,
}

/// An activation code.
#[derive(Debug)]
pub struct ActivationCode {
    pub id: i32,
    pub code: String,
    /// 0 universal, 1 credits, 2 membership time, 3 membership level.
    pub kind: i32,
    pub name: String,
    pub level: i32,
    pub duration: i32,
    pub max_uses: i32,
    pub used_count: i32,
    pub status: i32,
    pub notes: String,
    pub activated_at: String,
    pub expired_at: Option<String>,
    /// What the code grants, for a universal code.
    pub universal_config: Option<UniversalActivationConfig>,
}

/// What redeeming a code brought, each as a text for the user.
#[derive(Debug)]
pub struct ActivationEffects {
    pub membership_extended: Option<String>,
    pub credits_gained: Option<String>,
    pub usage_times: Option<String>,
    pub level_upgraded: Option<String>,
}

/// The data of the answer to an activation.
#[derive(Debug)]
pub struct ActivationResponseData {
    pub effects: Option<ActivationEffects>,
}

/// The whole answer to an activation.
pub type ActivateResponse = ApiResponse<Option<ActivationResponseData>>;

/// A request to change the password.
#[derive(Debug)]
pub struct PasswordChangeRequest {
    pub old_password: String,
    pub new_password: String,
    pub confirm_password: String,
}

/// A notice to show to the user.
#[derive(Debug)]
pub struct PublicInfo {
    pub kind: String,
    pub closeable: bool,
    pub props: PublicInfoProps,
    pub actions: Vec<PublicInfoAction>,
}

/// The texts of a notice.
#[derive(Debug)]
pub struct PublicInfoProps {
    pub title: String,
    pub description: String,
}

/// Something the user can do about a notice.
#[derive(Debug)]
pub struct PublicInfoAction {
    pub kind: String,
    pub text: String,
    pub url: String,
}

/// How much one model was used.
#[derive(Debug)]
pub struct GptModelUsage {
    pub num_requests: i32,
    pub num_requests_total: i32,
    pub num_tokens: i32,
    pub max_request_usage: Option<i32>,
    pub max_token_usage: Option<i32>,
}

/// How much the models were used.
#[derive(Debug)]
pub struct UsageInfo {
    pub models: Vec<GptModelUsage>,
}

/// The answer to a question about a user's usage.
#[derive(Debug)]
pub struct UserInfoResponse {
    pub models: Vec<GptModelUsage>,
}

/// How much one model was used, as the application itself counts it.
#[derive(Debug)]
pub struct CursorModelUsage {
    pub num_requests: i32,
    pub num_requests_total: i32,
    pub num_tokens: i64,
    pub max_request_usage: Option<i32>,
    pub max_token_usage: Option<i64>,
}

/// The application's own count of usage, model by model.
#[derive(Debug)]
pub struct CursorUsageInfo {
    pub gpt4: CursorModelUsage,
    pub gpt35_turbo: CursorModelUsage,
    pub gpt4_32k: CursorModelUsage,
    pub start_of_month: String,
}

/// A report of a fault.
pub struct BugReportRequest {
    pub api_key: Option<String>,
    pub app_version: String,
    pub os_version: String,
    pub device_model: String,
    pub cursor_version: String,
    pub bug_description: String,
    pub occurrence_time: String,
    pub screenshot_urls: Option<Vec<String>>,
    pub severity: String,
}

/// An account handed out by the pool, with the code that paid for it.
#[derive(Debug)]
pub struct AccountPoolInfo {
    pub success: bool,
    pub account_info: AccountInfo,
    pub activation_code: ActivationCode,
}

/// An account that was used before.
#[derive(Debug, Clone)]
pub struct HistoryAccountRecord {
    pub email: String,
    pub token: String,
    pub machine_code: String,
    pub gpt4_count: i32,
    pub gpt35_count: i32,
    pub last_used: i64,
    pub gpt4_max_usage: Option<i32>,
    pub gpt35_max_usage: Option<i32>,
}

/// An announcement.
#[derive(Debug)]
pub struct Article {
    pub id: i32,
    pub title: String,
    pub content: String,
}

/// The answer to a request for the announcements.
#[derive(Debug)]
pub struct ArticleListResponse {
    pub articles: Vec<Article>,
}

} // verus!
