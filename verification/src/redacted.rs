//! Routes as they are shown to people, without their tokens.
use std::fmt::{Debug, Formatter};
use std::time::Duration;
use vstd::prelude::*;

use crate::configuration::{RelayLatencyProfile, RouteView};
use crate::ice_server::RelayIceServer;

verus! {

/// What stands in the place of a token.
pub const TOKEN_MARK: &'static str = "<redacted>";

/// A route with a mark in the place of its token.
#[derive(Debug)]
pub struct RelayRouteConfiguration<'a> {
    pub relay_url: &'a str,
    pub relay_session_id: &'a str,
    pub source_token: &'static str,
    pub bus_id: &'a str,
    pub publisher_group_id: &'a str,
    pub latency_profile: RelayLatencyProfile,
    pub ice_servers: &'a Vec<RelayIceServer>,
    pub startup_timeout: Duration,
}

/// Whether everything but the token is that of the route.
pub open spec fn shows(shown: RelayRouteConfiguration<'_>, route: RouteView) -> bool {
    &&& shown.relay_url@ == route.relay_url
    &&& shown.relay_session_id@ == route.relay_session_id
    &&& shown.source_token@ == TOKEN_MARK@
    &&& shown.bus_id@ == route.bus_id
    &&& shown.publisher_group_id@ == route.publisher_group_id
    &&& shown.latency_profile == route.latency_profile
    &&& crate::ice_server::server_views(shown.ice_servers@) == route.ice_servers
    &&& crate::boundary::duration_nanos(shown.startup_timeout) == route.startup_timeout_ns
}

/// Where a text is written.
#[verifier::external_type_specification]
#[verifier::external_body]
pub struct ExFormatter<'a>(Formatter<'a>);

/// That a text could not be written.
#[verifier::external_type_specification]
#[verifier::external_body]
pub struct ExFmtError(std::fmt::Error);

/// What has been handed to the writer behind a formatter so far.
pub uninterp spec fn written(formatter: Formatter<'_>) -> Seq<char>;

/// The debug output of a route with these texts (URL, Session, token, bus and group), under
/// the options of a formatter.
pub uninterp spec fn debug_text(
    formatter: Formatter<'_>,
    texts: Seq<Seq<char>>,
    low_latency: bool,
    ice_servers: Seq<Seq<Seq<char>>>,
    startup_timeout_ns: nat,
) -> Seq<char>;

/// `Debug::fmt` writes the name of the type and each of its fields. What it writes depends on
/// the fields and on the formatter's options alone. A writer may refuse it.
#[verifier::external_body]
pub(crate) fn write_debug(
    shown: &RelayRouteConfiguration<'_>,
    formatter: &mut Formatter<'_>,
) -> (r: std::fmt::Result)
    ensures
        r is Ok ==> written(*final(formatter)) == written(*old(formatter)) + debug_text(
            *old(formatter),
            seq![
                shown.relay_url@,
                shown.relay_session_id@,
                shown.source_token@,
                shown.bus_id@,
                shown.publisher_group_id@,
            ],
            shown.latency_profile == RelayLatencyProfile::Low,
            crate::ice_server::server_views(shown.ice_servers@),
            crate::boundary::duration_nanos(shown.startup_timeout),
        ),
{
    Debug::fmt(shown, formatter)
}

/// The debug output of a route: that of the route with a mark in the place of its token.
pub open spec fn shown_text(formatter: Formatter<'_>, route: RouteView) -> Seq<char> {
    debug_text(
        formatter,
        seq![
            route.relay_url,
            route.relay_session_id,
            TOKEN_MARK@,
            route.bus_id,
            route.publisher_group_id,
        ],
        route.latency_profile == RelayLatencyProfile::Low,
        route.ice_servers,
        route.startup_timeout_ns,
    )
}

/// The debug output of a route does not depend on its token: routes that differ in nothing
/// else are written alike.
pub proof fn tokens_are_not_written(formatter: Formatter<'_>, route: RouteView, token: Seq<char>)
    ensures
        shown_text(formatter, RouteView { source_token: token, ..route }) == shown_text(
            formatter,
            route,
        ),
{
}

/// Two routes are shown alike exactly where they differ in nothing but their tokens, and no
/// token is shown.
pub proof fn everything_but_the_token_is_shown(
    shown: RelayRouteConfiguration<'_>,
    a: RouteView,
    b: RouteView,
)
    requires
        shows(shown, a),
    ensures
        shows(shown, b) <==> {
            &&& a.relay_url == b.relay_url
            &&& a.relay_session_id == b.relay_session_id
            &&& a.bus_id == b.bus_id
            &&& a.publisher_group_id == b.publisher_group_id
            &&& a.latency_profile == b.latency_profile
            &&& a.ice_servers == b.ice_servers
            &&& a.startup_timeout_ns == b.startup_timeout_ns
        },
        shown.source_token@ == "<redacted>"@,
        shown.relay_url@ == a.relay_url,
        shown.bus_id@ == a.bus_id,
{
}

} // verus!
