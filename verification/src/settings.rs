//! Configuration of the services, and the few rules it carries: message
//! queue routing keys, production detection and start-up warnings.

use vstd::prelude::*;
use crate::text::{has_infix, contains_text};

verus! {

pub struct Database {
    pub mongodb: String,
    pub redis: String,
}

pub struct Rabbit {
    pub host: String,
    pub port: u16,
    pub username: String,
    pub password: String,
}

pub struct Hosts {
    pub app: String,
    pub api: String,
    pub events: String,
    pub autumn: String,
    pub january: String,
    pub voso_legacy: String,
    pub voso_legacy_ws: String,
}

pub struct ApiRegistration {
    pub invite_only: bool,
}

pub struct ApiSmtp {
    pub host: String,
    pub username: String,
    pub password: String,
    pub from_address: String,
    pub reply_to: Option<String>,
    pub port: Option<i32>,
    pub use_tls: Option<bool>,
    pub use_starttls: Option<bool>,
}

pub struct PushVapid {
    pub queue: String,
    pub private_key: String,
    pub public_key: String,
}

pub struct PushFcm {
    pub queue: String,
    pub key_type: String,
    pub project_id: String,
    pub private_key_id: String,
    pub private_key: String,
    pub client_email: String,
    pub client_id: String,
    pub auth_uri: String,
    pub token_uri: String,
    pub auth_provider_x509_cert_url: String,
    pub client_x509_cert_url: String,
}

pub struct PushApn {
    pub queue: String,
    pub sandbox: bool,
    pub pkcs8: String,
    pub key_id: String,
    pub team_id: String,
}

pub struct ApiSecurityCaptcha {
    pub hcaptcha_key: String,
    pub hcaptcha_sitekey: String,
}

pub struct ApiSecurity {
    pub authifier_shield_key: String,
    pub voso_legacy_token: String,
    pub captcha: ApiSecurityCaptcha,
    pub trust_cloudflare: bool,
    pub easypwned: String,
    pub tenor_key: String,
}

pub struct ApiWorkers {
    pub max_concurrent_connections: usize,
}

pub struct ApiUsers {
    pub early_adopter_cutoff: Option<u64>,
}

pub struct Api {
    pub registration: ApiRegistration,
    pub smtp: ApiSmtp,
    pub security: ApiSecurity,
    pub workers: ApiWorkers,
    pub users: ApiUsers,
}

pub struct Pushd {
    pub production: bool,
    pub exchange: String,
    pub mass_mention_chunk_size: usize,

    // Queues
    pub message_queue: String,
    pub mass_mention_queue: String,
    pub fr_accepted_queue: String,
    pub fr_received_queue: String,
    pub generic_queue: String,
    pub ack_queue: String,

    pub vapid: PushVapid,
    pub fcm: PushFcm,
    pub apn: PushApn,
}

/// The suffix of production routing keys.
pub open spec fn production_suffix() -> Seq<char> {
    seq!['-', 'p', 'r', 'd']
}

/// The suffix of test routing keys.
pub open spec fn test_suffix() -> Seq<char> {
    seq!['-', 't', 's', 't']
}

/// The routing key of a queue: its name with the production or test suffix.
pub open spec fn routing_key(production: bool, queue: Seq<char>) -> Seq<char> {
    queue + if production { production_suffix() } else { test_suffix() }
}

impl Pushd {
    fn get_routing_key(&self, key: String) -> (r: String)
        ensures
            r@ == routing_key(self.production, key@),
    {
        let r = if self.production {
            key.concat("-prd")
        } else {
            key.concat("-tst")
        };
        proof {
            reveal_strlit("-prd");
            reveal_strlit("-tst");
        }
        r
    }

    pub fn get_ack_routing_key(&self) -> (r: String)
        ensures
            r@ == routing_key(self.production, self.ack_queue@),
    {
        self.get_routing_key(self.ack_queue.clone())
    }

    pub fn get_message_routing_key(&self) -> (r: String)
        ensures
            r@ == routing_key(self.production, self.message_queue@),
    {
        self.get_routing_key(self.message_queue.clone())
    }

    pub fn get_mass_mention_routing_key(&self) -> (r: String)
        ensures
            r@ == routing_key(self.production, self.mass_mention_queue@),
    {
        self.get_routing_key(self.mass_mention_queue.clone())
    }

    pub fn get_fr_accepted_routing_key(&self) -> (r: String)
        ensures
            r@ == routing_key(self.production, self.fr_accepted_queue@),
    {
        self.get_routing_key(self.fr_accepted_queue.clone())
    }

    pub fn get_fr_received_routing_key(&self) -> (r: String)
        ensures
            r@ == routing_key(self.production, self.fr_received_queue@),
    {
        self.get_routing_key(self.fr_received_queue.clone())
    }

    pub fn get_generic_routing_key(&self) -> (r: String)
        ensures
            r@ == routing_key(self.production, self.generic_queue@),
    {
        self.get_routing_key(self.generic_queue.clone())
    }
}

pub struct FilesLimit {
    pub min_file_size: usize,
    pub min_resolution: [usize; 2],
    pub max_mega_pixels: usize,
    pub max_pixel_side: usize,
}

pub struct FilesS3 {
    pub endpoint: String,
    pub path_style_buckets: bool,
    pub region: String,
    pub access_key_id: String,
    pub secret_access_key: String,
    pub default_bucket: String,
}

pub struct GlobalLimits {
    pub group_size: usize,
    pub message_embeds: usize,
    pub message_replies: usize,
    pub message_reactions: usize,
    pub server_emoji: usize,
    pub server_roles: usize,
    pub server_channels: usize,

    pub new_user_hours: usize,

    pub body_limit_size: usize,
}

pub struct FeaturesLimits {
    pub outgoing_friend_requests: usize,

    pub bots: usize,
    pub message_length: usize,
    pub message_attachments: usize,
    pub servers: usize,

    /// Upload size limit per file tag, as (tag, bytes) pairs.
    pub file_upload_size_limit: Vec<(String, usize)>,
}

pub struct FeaturesLimitsCollection {
    pub global: GlobalLimits,

    pub new_user: FeaturesLimits,
    pub default: FeaturesLimits,

    /// Limits of further roles, as (role, limits) pairs.
    pub roles: Vec<(String, FeaturesLimits)>,
}

pub struct FeaturesAdvanced {
    pub process_message_delay_limit: u16,
}

impl Default for FeaturesAdvanced {
    fn default() -> (r: Self)
        ensures
            r.process_message_delay_limit == 5,
    {
        Self { process_message_delay_limit: 5 }
    }
}

pub struct Features {
    pub limits: FeaturesLimitsCollection,
    pub webhooks_enabled: bool,
    pub mass_mentions_send_notifications: bool,
    pub mass_mentions_enabled: bool,

    pub advanced: FeaturesAdvanced,
}

pub struct Sentry {
    pub api: String,
    pub events: String,
    pub files: String,
    pub proxy: String,
    pub pushd: String,
    pub crond: String,
    pub gifbox: String,
}

/// Whether an API host names a production node: it is served over https
/// from revolt.chat.
pub open spec fn is_production_host(api: Seq<char>) -> bool {
    has_infix(api, seq!['h', 't', 't', 'p', 's'])
        && has_infix(api, seq!['r', 'e', 'v', 'o', 'l', 't', '.', 'c', 'h', 'a', 't'])
}

impl Hosts {
    /// Whether the configured API host names a production node.
    pub fn is_production(&self) -> (r: bool)
        ensures
            r == is_production_host(self.api@),
    {
        let a = contains_text(self.api.as_str(), "https");
        let b = contains_text(self.api.as_str(), "revolt.chat");
        proof {
            reveal_strlit("https");
            reveal_strlit("revolt.chat");
            assert("https"@ =~= seq!['h', 't', 't', 'p', 's']);
            assert("revolt.chat"@ =~= seq!['r', 'e', 'v', 'o', 'l', 't', '.', 'c', 'h', 'a', 't']);
        }
        a && b
    }
}

/// Whether a node runs as production: as configured, or detected from its
/// API host.
pub fn production_flag(configured: bool, hosts: &Hosts) -> (r: bool)
    ensures
        r == (configured || is_production_host(hosts.api@)),
{
    if hosts.is_production() {
        true
    } else {
        configured
    }
}

/// A configuration gap to warn about at start-up.
#[derive(PartialEq, Eq, Structural)]
pub enum PreflightWarning {
    /// No SMTP settings specified! Remember to configure email.
    NoSmtp,
    /// No Captcha key specified! Remember to add hCaptcha key.
    NoCaptcha,
}

impl PreflightWarning {
    /// The warning's text.
    pub fn message(&self) -> (r: &'static str)
        ensures
            r@ == (match self {
                PreflightWarning::NoSmtp => "No SMTP settings specified! Remember to configure email."@,
                PreflightWarning::NoCaptcha => "No Captcha key specified! Remember to add hCaptcha key."@,
            }),
    {
        match self {
            PreflightWarning::NoSmtp => "No SMTP settings specified! Remember to configure email.",
            PreflightWarning::NoCaptcha => "No Captcha key specified! Remember to add hCaptcha key.",
        }
    }
}

impl Api {
    /// The start-up warnings, in order: a missing SMTP host, then a missing
    /// hCaptcha key.
    pub fn preflight_warnings(&self) -> (r: Vec<PreflightWarning>)
        ensures
            r@ == (if self.smtp.host@.len() == 0 { seq![PreflightWarning::NoSmtp] } else { seq![] })
                + (if self.security.captcha.hcaptcha_key@.len() == 0 {
                    seq![PreflightWarning::NoCaptcha]
                } else {
                    seq![]
                }),
    {
        let mut r: Vec<PreflightWarning> = Vec::new();
        if self.smtp.host.as_str().unicode_len() == 0 {
            r.push(PreflightWarning::NoSmtp);
        }
        if self.security.captcha.hcaptcha_key.as_str().unicode_len() == 0 {
            r.push(PreflightWarning::NoCaptcha);
        }
        proof {
            let a: Seq<PreflightWarning> = if self.smtp.host@.len() == 0 { seq![PreflightWarning::NoSmtp] } else { seq![] };
            let b: Seq<PreflightWarning> = if self.security.captcha.hcaptcha_key@.len() == 0 {
                seq![PreflightWarning::NoCaptcha]
            } else {
                seq![]
            };
            assert(r@ =~= a + b);
        }
        r
    }
}

} // verus!
