//! The mailer service's configuration values and their defaults. Reading
//! the environment belongs to the process edge; here stand the defaults and
//! the shape of the configuration.
use vstd::prelude::*;
use vstd::string::StringExecFns;

verus! {

fn def_app_debug() -> (r: bool)
    ensures
        r == false,
{
    false
}

fn def_rmq_uri() -> (r: String)
    ensures
        r@ == "amqp://localhost:5672"@,
{
    String::from_str("amqp://localhost:5672")
}

fn def_rmq_queue() -> (r: String)
    ensures
        r@ == "mailer"@,
{
    String::from_str("mailer")
}

fn def_rmq_consumer_tag() -> (r: String)
    ensures
        r@ == "mailer_service_consumer"@,
{
    String::from_str("mailer_service_consumer")
}

fn def_tracer_service_name() -> (r: String)
    ensures
        r@ == "mailer"@,
{
    String::from_str("mailer")
}

fn def_email_events_exchange() -> (r: String)
    ensures
        r@ == "email_events"@,
{
    String::from_str("email_events")
}

fn def_aws_region() -> (r: String)
    ensures
        r@ == "us-east-1"@,
{
    String::from_str("us-east-1")
}

fn def_app_default_email_sender() -> (r: String)
    ensures
        r@ == "rastercar.tests.001@gmail.com"@,
{
    String::from_str("rastercar.tests.001@gmail.com")
}

fn def_aws_ses_tracking_config_set() -> (r: String)
    ensures
        r@ == "email-events"@,
{
    String::from_str("email-events")
}

fn def_aws_ses_max_emails_per_second() -> (r: u32)
    ensures
        r == 1,
{
    1
}

fn def_http_port() -> (r: u16)
    ensures
        r == 3005,
{
    3005
}

/// The mailer's application configuration.
pub struct AppConfig {
    /// Whether to run in debug mode and print additional info.
    pub app_debug: bool,
    /// The service name used on tracing spans.
    pub tracer_service_name: String,
    /// Message broker uri.
    pub rmq_uri: String,
    /// Name of the queue this service consumes.
    pub rmq_queue: String,
    /// Tag name for the consumer of that queue.
    pub rmq_consumer_tag: String,
    /// Name of the exchange email events are published to.
    pub rmq_email_events_exchange: String,
    /// Cloud region.
    pub aws_region: String,
    /// Name of the configuration set used to track email events.
    pub aws_ses_tracking_config_set: String,
    /// Subscription identifier used to validate the sender of email events;
    /// when absent, validation is not applied.
    pub aws_sns_tracking_subscription_arn: Option<String>,
    /// Maximum sendEmail operations per second; defaults to the sandbox
    /// account value.
    pub aws_ses_max_emails_per_second: u32,
    pub http_port: u16,
    /// Sender address used when the caller does not specify one.
    pub app_default_email_sender: String,
}

/// The configuration with every value at its default; the process edge may
/// overlay environment values on top of it.
pub fn app_config() -> (r: AppConfig)
    ensures
        r.app_debug == false,
        r.tracer_service_name@ == "mailer"@,
        r.rmq_uri@ == "amqp://localhost:5672"@,
        r.rmq_queue@ == "mailer"@,
        r.rmq_consumer_tag@ == "mailer_service_consumer"@,
        r.rmq_email_events_exchange@ == "email_events"@,
        r.aws_region@ == "us-east-1"@,
        r.aws_ses_tracking_config_set@ == "email-events"@,
        r.aws_sns_tracking_subscription_arn is None,
        r.aws_ses_max_emails_per_second == 1,
        r.http_port == 3005,
        r.app_default_email_sender@ == "rastercar.tests.001@gmail.com"@,
{
    AppConfig {
        app_debug: def_app_debug(),
        tracer_service_name: def_tracer_service_name(),
        rmq_uri: def_rmq_uri(),
        rmq_queue: def_rmq_queue(),
        rmq_consumer_tag: def_rmq_consumer_tag(),
        rmq_email_events_exchange: def_email_events_exchange(),
        aws_region: def_aws_region(),
        aws_ses_tracking_config_set: def_aws_ses_tracking_config_set(),
        aws_sns_tracking_subscription_arn: Option::None,
        aws_ses_max_emails_per_second: def_aws_ses_max_emails_per_second(),
        http_port: def_http_port(),
        app_default_email_sender: def_app_default_email_sender(),
    }
}

} // verus!
