use vstd::prelude::*;
use vstd::string::*;

verus! {

/// The operator's settings: provider domain, API key and the refresh
/// interval in seconds, when one is set. The caller reads and parses the
/// configuration file and hands the values in here.
pub struct AppConfig {
    pagerduty_domain: String,
    pagerduty_api_key: String,
    refresh_rate: Option<i64>,
}

/// Mathematical image of an [`AppConfig`].
pub ghost struct AppConfigView {
    pub pagerduty_domain: Seq<char>,
    pub pagerduty_api_key: Seq<char>,
    pub refresh_rate: Option<i64>,
}

impl View for AppConfig {
    type V = AppConfigView;

    closed spec fn view(&self) -> AppConfigView {
        AppConfigView {
            pagerduty_domain: self.pagerduty_domain@,
            pagerduty_api_key: self.pagerduty_api_key@,
            refresh_rate: self.refresh_rate,
        }
    }
}

impl AppConfig {
    pub fn new(pagerduty_domain: String, pagerduty_api_key: String, refresh_rate: Option<i64>) -> (r:
        AppConfig)
        ensures
            r@.pagerduty_domain == pagerduty_domain@,
            r@.pagerduty_api_key == pagerduty_api_key@,
            r@.refresh_rate == refresh_rate,
    {
        AppConfig { pagerduty_domain, pagerduty_api_key, refresh_rate }
    }

    pub fn get_pagerduty_api_key(&self) -> (r: &str)
        ensures
            r@ == self@.pagerduty_api_key,
    {
        self.pagerduty_api_key.as_str()
    }

    pub fn get_pagerduty_domain(&self) -> (r: &str)
        ensures
            r@ == self@.pagerduty_domain,
    {
        self.pagerduty_domain.as_str()
    }

    pub fn get_refresh_rate(&self) -> (r: &Option<i64>)
        ensures
            *r == self@.refresh_rate,
    {
        &self.refresh_rate
    }
}

} // verus!
