//! The SPP profile registration that BlueZ receives.

use vstd::prelude::*;
use vstd::string::*;
use crate::config::BluezConfig;

verus! {

/// The value of one `RegisterProfile` option.
#[derive(Debug, Clone)]
pub enum ProfileOptionValue {
    Text(String),
    Flag(bool),
}

/// One `RegisterProfile` option: its key and value.
#[derive(Debug, Clone)]
pub struct ProfileOption {
    pub key: String,
    pub value: ProfileOptionValue,
}

pub enum ProfileOptionValueView {
    Text(Seq<char>),
    Flag(bool),
}

impl View for ProfileOption {
    type V = (Seq<char>, ProfileOptionValueView);

    open spec fn view(&self) -> (Seq<char>, ProfileOptionValueView) {
        (
            self.key@,
            match self.value {
                ProfileOptionValue::Text(s) => ProfileOptionValueView::Text(s@),
                ProfileOptionValue::Flag(b) => ProfileOptionValueView::Flag(b),
            },
        )
    }
}

/// The options the profile is registered with: its name and the two BlueZ
/// authentication and authorization requirements.
pub open spec fn profile_options(c: BluezConfig) -> Seq<(Seq<char>, ProfileOptionValueView)> {
    seq![
        ("Name"@, ProfileOptionValueView::Text(c.profile_name@)),
        ("RequireAuthentication"@, ProfileOptionValueView::Flag(c.require_authentication)),
        ("RequireAuthorization"@, ProfileOptionValueView::Flag(c.require_authorization)),
    ]
}

/// The `RegisterProfile` options for a BlueZ configuration.
pub fn registration_options(config: &BluezConfig) -> (r: Vec<ProfileOption>)
    ensures
        r@.map_values(|o: ProfileOption| o@) == profile_options(*config),
{
    let mut r: Vec<ProfileOption> = Vec::new();
    r.push(
        ProfileOption {
            key: String::from_str("Name"),
            value: ProfileOptionValue::Text(config.profile_name.clone()),
        },
    );
    r.push(
        ProfileOption {
            key: String::from_str("RequireAuthentication"),
            value: ProfileOptionValue::Flag(config.require_authentication),
        },
    );
    r.push(
        ProfileOption {
            key: String::from_str("RequireAuthorization"),
            value: ProfileOptionValue::Flag(config.require_authorization),
        },
    );
    assert(r@.map_values(|o: ProfileOption| o@) =~= profile_options(*config));
    r
}

} // verus!
