//! The endpoints of the server: where each is routed and on which plane.

use vstd::prelude::*;

verus! {

/// The methods that the server routes.
#[derive(Clone, Copy, Debug, PartialEq, Eq, Structural)]
pub enum Method {
    Get,
    Post,
    Put,
    Patch,
    Delete,
}

/// Who calls an endpoint, and with which credentials.
#[derive(Clone, Copy, Debug, PartialEq, Eq, Structural)]
pub enum Plane {
    /// The customer's backend, with an API key.
    Management,
    /// The widget in a browser, with a subscriber hash.
    Subscriber,
    /// The embedded dashboard, same-origin.
    Admin,
    /// Probes and scrapers.
    Operational,
}

/// One operation of the server.
#[derive(Clone, Copy, Debug, PartialEq, Eq, Structural)]
pub enum Endpoint {
    ListItems,
    GetCounts,
    GetFilteredCounts,
    MarkNotificationRead,
    MarkNotificationUnread,
    MarkBroadcastRead,
    MarkBroadcastUnread,
    ArchiveNotification,
    UnarchiveNotification,
    ArchiveBroadcast,
    UnarchiveBroadcast,
    MarkAllRead,
    MarkAllSeen,
    ArchiveAll,
    ArchiveRead,
    GetInboxPreferences,
    SetInboxPreferences,
    Stream,
    CreateNotifications,
    GetNotificationTimeline,
    CreateBroadcast,
    UpsertSubscriber,
    GetSubscriberPreferences,
    SetSubscriberPreferences,
    AdminLogin,
    AdminLogout,
    AdminMe,
    AdminListUsers,
    AdminCreateUser,
    AdminUpdateUser,
    AdminDeleteUser,
    AdminSetUserPassword,
    AdminListEnvironments,
    AdminCreateEnvironment,
    AdminGetEnvironment,
    AdminRotateHmac,
    AdminCompleteHmacRotation,
    AdminListApiKeys,
    AdminCreateApiKey,
    AdminRevokeApiKey,
    AdminListNotifications,
    AdminNotificationTimeline,
    AdminCreateBroadcast,
    AdminGetSubscriber,
    AdminListDlq,
    AdminReplayAllDeadLetters,
    AdminReplayDeadLetter,
    AdminSpaRoot,
    AdminSpa,
    Root,
    Healthz,
    Readyz,
    Metrics,
}

impl Endpoint {
    /// The method it is routed by.
    pub open spec fn routed_method(self) -> Method {
        match self {
            Endpoint::ListItems
            | Endpoint::GetCounts
            | Endpoint::GetInboxPreferences
            | Endpoint::Stream
            | Endpoint::GetNotificationTimeline
            | Endpoint::GetSubscriberPreferences
            | Endpoint::AdminMe
            | Endpoint::AdminListUsers
            | Endpoint::AdminListEnvironments
            | Endpoint::AdminGetEnvironment
            | Endpoint::AdminListApiKeys
            | Endpoint::AdminListNotifications
            | Endpoint::AdminNotificationTimeline
            | Endpoint::AdminGetSubscriber
            | Endpoint::AdminListDlq
            | Endpoint::AdminSpaRoot
            | Endpoint::AdminSpa
            | Endpoint::Root
            | Endpoint::Healthz
            | Endpoint::Readyz
            | Endpoint::Metrics => Method::Get,
            Endpoint::SetInboxPreferences
            | Endpoint::UpsertSubscriber
            | Endpoint::SetSubscriberPreferences => Method::Put,
            Endpoint::AdminUpdateUser => Method::Patch,
            Endpoint::AdminDeleteUser => Method::Delete,
            _ => Method::Post,
        }
    }

    /// The path it is routed by.
    pub open spec fn routed_path(self) -> Seq<char> {
        match self {
            Endpoint::ListItems => "/v1/inbox/items"@,
            Endpoint::GetCounts => "/v1/inbox/counts"@,
            Endpoint::GetFilteredCounts => "/v1/inbox/counts"@,
            Endpoint::MarkNotificationRead => "/v1/inbox/notifications/{id}/read"@,
            Endpoint::MarkNotificationUnread => "/v1/inbox/notifications/{id}/unread"@,
            Endpoint::MarkBroadcastRead => "/v1/inbox/broadcasts/{id}/read"@,
            Endpoint::MarkBroadcastUnread => "/v1/inbox/broadcasts/{id}/unread"@,
            Endpoint::ArchiveNotification => "/v1/inbox/notifications/{id}/archive"@,
            Endpoint::UnarchiveNotification => "/v1/inbox/notifications/{id}/unarchive"@,
            Endpoint::ArchiveBroadcast => "/v1/inbox/broadcasts/{id}/archive"@,
            Endpoint::UnarchiveBroadcast => "/v1/inbox/broadcasts/{id}/unarchive"@,
            Endpoint::MarkAllRead => "/v1/inbox/read-all"@,
            Endpoint::MarkAllSeen => "/v1/inbox/seen-all"@,
            Endpoint::ArchiveAll => "/v1/inbox/archive-all"@,
            Endpoint::ArchiveRead => "/v1/inbox/archive-read"@,
            Endpoint::GetInboxPreferences => "/v1/inbox/preferences"@,
            Endpoint::SetInboxPreferences => "/v1/inbox/preferences"@,
            Endpoint::Stream => "/v1/inbox/stream"@,
            Endpoint::CreateNotifications => "/v1/notifications"@,
            Endpoint::GetNotificationTimeline => "/v1/notifications/{id}/timeline"@,
            Endpoint::CreateBroadcast => "/v1/broadcasts"@,
            Endpoint::UpsertSubscriber => "/v1/subscribers/{subscriber_id}"@,
            Endpoint::GetSubscriberPreferences => "/v1/subscribers/{subscriber_id}/preferences"@,
            Endpoint::SetSubscriberPreferences => "/v1/subscribers/{subscriber_id}/preferences"@,
            Endpoint::AdminLogin => "/admin/api/login"@,
            Endpoint::AdminLogout => "/admin/api/logout"@,
            Endpoint::AdminMe => "/admin/api/me"@,
            Endpoint::AdminListUsers => "/admin/api/users"@,
            Endpoint::AdminCreateUser => "/admin/api/users"@,
            Endpoint::AdminUpdateUser => "/admin/api/users/{user_id}"@,
            Endpoint::AdminDeleteUser => "/admin/api/users/{user_id}"@,
            Endpoint::AdminSetUserPassword => "/admin/api/users/{user_id}/password"@,
            Endpoint::AdminListEnvironments => "/admin/api/environments"@,
            Endpoint::AdminCreateEnvironment => "/admin/api/environments"@,
            Endpoint::AdminGetEnvironment => "/admin/api/environments/{env_id}"@,
            Endpoint::AdminRotateHmac => "/admin/api/environments/{env_id}/hmac/rotate"@,
            Endpoint::AdminCompleteHmacRotation => "/admin/api/environments/{env_id}/hmac/rotate/complete"@,
            Endpoint::AdminListApiKeys => "/admin/api/environments/{env_id}/api-keys"@,
            Endpoint::AdminCreateApiKey => "/admin/api/environments/{env_id}/api-keys"@,
            Endpoint::AdminRevokeApiKey => "/admin/api/environments/{env_id}/api-keys/{key_id}/revoke"@,
            Endpoint::AdminListNotifications => "/admin/api/environments/{env_id}/notifications"@,
            Endpoint::AdminNotificationTimeline => "/admin/api/environments/{env_id}/notifications/{notif_id}/timeline"@,
            Endpoint::AdminCreateBroadcast => "/admin/api/environments/{env_id}/broadcasts"@,
            Endpoint::AdminGetSubscriber => "/admin/api/environments/{env_id}/subscribers/{subscriber_id}"@,
            Endpoint::AdminListDlq => "/admin/api/dlq"@,
            Endpoint::AdminReplayAllDeadLetters => "/admin/api/dlq/replay-all"@,
            Endpoint::AdminReplayDeadLetter => "/admin/api/dlq/{job_id}/replay"@,
            Endpoint::AdminSpaRoot => "/admin"@,
            Endpoint::AdminSpa => "/admin/{*path}"@,
            Endpoint::Root => "/"@,
            Endpoint::Healthz => "/healthz"@,
            Endpoint::Readyz => "/readyz"@,
            Endpoint::Metrics => "/metrics"@,
        }
    }

    /// The plane it belongs to.
    pub open spec fn on_plane(self) -> Plane {
        match self {
            Endpoint::ListItems
            | Endpoint::GetCounts
            | Endpoint::GetFilteredCounts
            | Endpoint::MarkNotificationRead
            | Endpoint::MarkNotificationUnread
            | Endpoint::MarkBroadcastRead
            | Endpoint::MarkBroadcastUnread
            | Endpoint::ArchiveNotification
            | Endpoint::UnarchiveNotification
            | Endpoint::ArchiveBroadcast
            | Endpoint::UnarchiveBroadcast
            | Endpoint::MarkAllRead
            | Endpoint::MarkAllSeen
            | Endpoint::ArchiveAll
            | Endpoint::ArchiveRead
            | Endpoint::GetInboxPreferences
            | Endpoint::SetInboxPreferences
            | Endpoint::Stream => Plane::Subscriber,
            Endpoint::CreateNotifications
            | Endpoint::GetNotificationTimeline
            | Endpoint::CreateBroadcast
            | Endpoint::UpsertSubscriber
            | Endpoint::GetSubscriberPreferences
            | Endpoint::SetSubscriberPreferences => Plane::Management,
            Endpoint::Root
            | Endpoint::Healthz
            | Endpoint::Readyz
            | Endpoint::Metrics => Plane::Operational,
            _ => Plane::Admin,
        }
    }

    /// Its place in the list of all endpoints.
    pub open spec fn place(self) -> int {
        match self {
            Endpoint::ListItems => 0,
            Endpoint::GetCounts => 1,
            Endpoint::GetFilteredCounts => 2,
            Endpoint::MarkNotificationRead => 3,
            Endpoint::MarkNotificationUnread => 4,
            Endpoint::MarkBroadcastRead => 5,
            Endpoint::MarkBroadcastUnread => 6,
            Endpoint::ArchiveNotification => 7,
            Endpoint::UnarchiveNotification => 8,
            Endpoint::ArchiveBroadcast => 9,
            Endpoint::UnarchiveBroadcast => 10,
            Endpoint::MarkAllRead => 11,
            Endpoint::MarkAllSeen => 12,
            Endpoint::ArchiveAll => 13,
            Endpoint::ArchiveRead => 14,
            Endpoint::GetInboxPreferences => 15,
            Endpoint::SetInboxPreferences => 16,
            Endpoint::Stream => 17,
            Endpoint::CreateNotifications => 18,
            Endpoint::GetNotificationTimeline => 19,
            Endpoint::CreateBroadcast => 20,
            Endpoint::UpsertSubscriber => 21,
            Endpoint::GetSubscriberPreferences => 22,
            Endpoint::SetSubscriberPreferences => 23,
            Endpoint::AdminLogin => 24,
            Endpoint::AdminLogout => 25,
            Endpoint::AdminMe => 26,
            Endpoint::AdminListUsers => 27,
            Endpoint::AdminCreateUser => 28,
            Endpoint::AdminUpdateUser => 29,
            Endpoint::AdminDeleteUser => 30,
            Endpoint::AdminSetUserPassword => 31,
            Endpoint::AdminListEnvironments => 32,
            Endpoint::AdminCreateEnvironment => 33,
            Endpoint::AdminGetEnvironment => 34,
            Endpoint::AdminRotateHmac => 35,
            Endpoint::AdminCompleteHmacRotation => 36,
            Endpoint::AdminListApiKeys => 37,
            Endpoint::AdminCreateApiKey => 38,
            Endpoint::AdminRevokeApiKey => 39,
            Endpoint::AdminListNotifications => 40,
            Endpoint::AdminNotificationTimeline => 41,
            Endpoint::AdminCreateBroadcast => 42,
            Endpoint::AdminGetSubscriber => 43,
            Endpoint::AdminListDlq => 44,
            Endpoint::AdminReplayAllDeadLetters => 45,
            Endpoint::AdminReplayDeadLetter => 46,
            Endpoint::AdminSpaRoot => 47,
            Endpoint::AdminSpa => 48,
            Endpoint::Root => 49,
            Endpoint::Healthz => 50,
            Endpoint::Readyz => 51,
            Endpoint::Metrics => 52,
        }
    }

    /// Whether the API document declares it: all but the dashboard's pages, the
    /// root and the probes.
    pub open spec fn is_documented(self) -> bool {
        self.on_plane() != Plane::Operational && self != Endpoint::AdminSpaRoot && self
            != Endpoint::AdminSpa
    }

    /// Whether the API document declares it.
    pub fn documented(self) -> (r: bool)
        ensures
            r == self.is_documented(),
            !r <==> self is AdminSpaRoot || self is AdminSpa || self is Root || self is Healthz
                || self is Readyz || self is Metrics,
    {
        self.plane() != Plane::Operational && self != Endpoint::AdminSpaRoot && self
            != Endpoint::AdminSpa
    }

    /// The method it is routed by.
    pub fn method(self) -> (r: Method)
        ensures
            r == self.routed_method(),
            self is ListItems ==> r == Method::Get,
            self is GetCounts ==> r == Method::Get,
            self is GetFilteredCounts ==> r == Method::Post,
            self is MarkNotificationRead ==> r == Method::Post,
            self is MarkNotificationUnread ==> r == Method::Post,
            self is MarkBroadcastRead ==> r == Method::Post,
            self is MarkBroadcastUnread ==> r == Method::Post,
            self is ArchiveNotification ==> r == Method::Post,
            self is UnarchiveNotification ==> r == Method::Post,
            self is ArchiveBroadcast ==> r == Method::Post,
            self is UnarchiveBroadcast ==> r == Method::Post,
            self is MarkAllRead ==> r == Method::Post,
            self is MarkAllSeen ==> r == Method::Post,
            self is ArchiveAll ==> r == Method::Post,
            self is ArchiveRead ==> r == Method::Post,
            self is GetInboxPreferences ==> r == Method::Get,
            self is SetInboxPreferences ==> r == Method::Put,
            self is Stream ==> r == Method::Get,
            self is CreateNotifications ==> r == Method::Post,
            self is GetNotificationTimeline ==> r == Method::Get,
            self is CreateBroadcast ==> r == Method::Post,
            self is UpsertSubscriber ==> r == Method::Put,
            self is GetSubscriberPreferences ==> r == Method::Get,
            self is SetSubscriberPreferences ==> r == Method::Put,
            self is AdminLogin ==> r == Method::Post,
            self is AdminLogout ==> r == Method::Post,
            self is AdminMe ==> r == Method::Get,
            self is AdminListUsers ==> r == Method::Get,
            self is AdminCreateUser ==> r == Method::Post,
            self is AdminUpdateUser ==> r == Method::Patch,
            self is AdminDeleteUser ==> r == Method::Delete,
            self is AdminSetUserPassword ==> r == Method::Post,
            self is AdminListEnvironments ==> r == Method::Get,
            self is AdminCreateEnvironment ==> r == Method::Post,
            self is AdminGetEnvironment ==> r == Method::Get,
            self is AdminRotateHmac ==> r == Method::Post,
            self is AdminCompleteHmacRotation ==> r == Method::Post,
            self is AdminListApiKeys ==> r == Method::Get,
            self is AdminCreateApiKey ==> r == Method::Post,
            self is AdminRevokeApiKey ==> r == Method::Post,
            self is AdminListNotifications ==> r == Method::Get,
            self is AdminNotificationTimeline ==> r == Method::Get,
            self is AdminCreateBroadcast ==> r == Method::Post,
            self is AdminGetSubscriber ==> r == Method::Get,
            self is AdminListDlq ==> r == Method::Get,
            self is AdminReplayAllDeadLetters ==> r == Method::Post,
            self is AdminReplayDeadLetter ==> r == Method::Post,
            self is AdminSpaRoot ==> r == Method::Get,
            self is AdminSpa ==> r == Method::Get,
            self is Root ==> r == Method::Get,
            self is Healthz ==> r == Method::Get,
            self is Readyz ==> r == Method::Get,
            self is Metrics ==> r == Method::Get,
    {
        match self {
            Endpoint::ListItems
            | Endpoint::GetCounts
            | Endpoint::GetInboxPreferences
            | Endpoint::Stream
            | Endpoint::GetNotificationTimeline
            | Endpoint::GetSubscriberPreferences
            | Endpoint::AdminMe
            | Endpoint::AdminListUsers
            | Endpoint::AdminListEnvironments
            | Endpoint::AdminGetEnvironment
            | Endpoint::AdminListApiKeys
            | Endpoint::AdminListNotifications
            | Endpoint::AdminNotificationTimeline
            | Endpoint::AdminGetSubscriber
            | Endpoint::AdminListDlq
            | Endpoint::AdminSpaRoot
            | Endpoint::AdminSpa
            | Endpoint::Root
            | Endpoint::Healthz
            | Endpoint::Readyz
            | Endpoint::Metrics => Method::Get,
            Endpoint::SetInboxPreferences
            | Endpoint::UpsertSubscriber
            | Endpoint::SetSubscriberPreferences => Method::Put,
            Endpoint::AdminUpdateUser => Method::Patch,
            Endpoint::AdminDeleteUser => Method::Delete,
            _ => Method::Post,
        }
    }

    /// The path it is routed by.
    pub fn path(self) -> (r: &'static str)
        ensures
            r@ == self.routed_path(),
            self is ListItems ==> r@ == "/v1/inbox/items"@,
            self is GetCounts ==> r@ == "/v1/inbox/counts"@,
            self is GetFilteredCounts ==> r@ == "/v1/inbox/counts"@,
            self is MarkNotificationRead ==> r@ == "/v1/inbox/notifications/{id}/read"@,
            self is MarkNotificationUnread ==> r@ == "/v1/inbox/notifications/{id}/unread"@,
            self is MarkBroadcastRead ==> r@ == "/v1/inbox/broadcasts/{id}/read"@,
            self is MarkBroadcastUnread ==> r@ == "/v1/inbox/broadcasts/{id}/unread"@,
            self is ArchiveNotification ==> r@ == "/v1/inbox/notifications/{id}/archive"@,
            self is UnarchiveNotification ==> r@ == "/v1/inbox/notifications/{id}/unarchive"@,
            self is ArchiveBroadcast ==> r@ == "/v1/inbox/broadcasts/{id}/archive"@,
            self is UnarchiveBroadcast ==> r@ == "/v1/inbox/broadcasts/{id}/unarchive"@,
            self is MarkAllRead ==> r@ == "/v1/inbox/read-all"@,
            self is MarkAllSeen ==> r@ == "/v1/inbox/seen-all"@,
            self is ArchiveAll ==> r@ == "/v1/inbox/archive-all"@,
            self is ArchiveRead ==> r@ == "/v1/inbox/archive-read"@,
            self is GetInboxPreferences ==> r@ == "/v1/inbox/preferences"@,
            self is SetInboxPreferences ==> r@ == "/v1/inbox/preferences"@,
            self is Stream ==> r@ == "/v1/inbox/stream"@,
            self is CreateNotifications ==> r@ == "/v1/notifications"@,
            self is GetNotificationTimeline ==> r@ == "/v1/notifications/{id}/timeline"@,
            self is CreateBroadcast ==> r@ == "/v1/broadcasts"@,
            self is UpsertSubscriber ==> r@ == "/v1/subscribers/{subscriber_id}"@,
            self is GetSubscriberPreferences ==> r@ == "/v1/subscribers/{subscriber_id}/preferences"@,
            self is SetSubscriberPreferences ==> r@ == "/v1/subscribers/{subscriber_id}/preferences"@,
            self is AdminLogin ==> r@ == "/admin/api/login"@,
            self is AdminLogout ==> r@ == "/admin/api/logout"@,
            self is AdminMe ==> r@ == "/admin/api/me"@,
            self is AdminListUsers ==> r@ == "/admin/api/users"@,
            self is AdminCreateUser ==> r@ == "/admin/api/users"@,
            self is AdminUpdateUser ==> r@ == "/admin/api/users/{user_id}"@,
            self is AdminDeleteUser ==> r@ == "/admin/api/users/{user_id}"@,
            self is AdminSetUserPassword ==> r@ == "/admin/api/users/{user_id}/password"@,
            self is AdminListEnvironments ==> r@ == "/admin/api/environments"@,
            self is AdminCreateEnvironment ==> r@ == "/admin/api/environments"@,
            self is AdminGetEnvironment ==> r@ == "/admin/api/environments/{env_id}"@,
            self is AdminRotateHmac ==> r@ == "/admin/api/environments/{env_id}/hmac/rotate"@,
            self is AdminCompleteHmacRotation ==> r@ == "/admin/api/environments/{env_id}/hmac/rotate/complete"@,
            self is AdminListApiKeys ==> r@ == "/admin/api/environments/{env_id}/api-keys"@,
            self is AdminCreateApiKey ==> r@ == "/admin/api/environments/{env_id}/api-keys"@,
            self is AdminRevokeApiKey ==> r@ == "/admin/api/environments/{env_id}/api-keys/{key_id}/revoke"@,
            self is AdminListNotifications ==> r@ == "/admin/api/environments/{env_id}/notifications"@,
            self is AdminNotificationTimeline ==> r@ == "/admin/api/environments/{env_id}/notifications/{notif_id}/timeline"@,
            self is AdminCreateBroadcast ==> r@ == "/admin/api/environments/{env_id}/broadcasts"@,
            self is AdminGetSubscriber ==> r@ == "/admin/api/environments/{env_id}/subscribers/{subscriber_id}"@,
            self is AdminListDlq ==> r@ == "/admin/api/dlq"@,
            self is AdminReplayAllDeadLetters ==> r@ == "/admin/api/dlq/replay-all"@,
            self is AdminReplayDeadLetter ==> r@ == "/admin/api/dlq/{job_id}/replay"@,
            self is AdminSpaRoot ==> r@ == "/admin"@,
            self is AdminSpa ==> r@ == "/admin/{*path}"@,
            self is Root ==> r@ == "/"@,
            self is Healthz ==> r@ == "/healthz"@,
            self is Readyz ==> r@ == "/readyz"@,
            self is Metrics ==> r@ == "/metrics"@,
    {
        match self {
            Endpoint::ListItems => "/v1/inbox/items",
            Endpoint::GetCounts => "/v1/inbox/counts",
            Endpoint::GetFilteredCounts => "/v1/inbox/counts",
            Endpoint::MarkNotificationRead => "/v1/inbox/notifications/{id}/read",
            Endpoint::MarkNotificationUnread => "/v1/inbox/notifications/{id}/unread",
            Endpoint::MarkBroadcastRead => "/v1/inbox/broadcasts/{id}/read",
            Endpoint::MarkBroadcastUnread => "/v1/inbox/broadcasts/{id}/unread",
            Endpoint::ArchiveNotification => "/v1/inbox/notifications/{id}/archive",
            Endpoint::UnarchiveNotification => "/v1/inbox/notifications/{id}/unarchive",
            Endpoint::ArchiveBroadcast => "/v1/inbox/broadcasts/{id}/archive",
            Endpoint::UnarchiveBroadcast => "/v1/inbox/broadcasts/{id}/unarchive",
            Endpoint::MarkAllRead => "/v1/inbox/read-all",
            Endpoint::MarkAllSeen => "/v1/inbox/seen-all",
            Endpoint::ArchiveAll => "/v1/inbox/archive-all",
            Endpoint::ArchiveRead => "/v1/inbox/archive-read",
            Endpoint::GetInboxPreferences => "/v1/inbox/preferences",
            Endpoint::SetInboxPreferences => "/v1/inbox/preferences",
            Endpoint::Stream => "/v1/inbox/stream",
            Endpoint::CreateNotifications => "/v1/notifications",
            Endpoint::GetNotificationTimeline => "/v1/notifications/{id}/timeline",
            Endpoint::CreateBroadcast => "/v1/broadcasts",
            Endpoint::UpsertSubscriber => "/v1/subscribers/{subscriber_id}",
            Endpoint::GetSubscriberPreferences => "/v1/subscribers/{subscriber_id}/preferences",
            Endpoint::SetSubscriberPreferences => "/v1/subscribers/{subscriber_id}/preferences",
            Endpoint::AdminLogin => "/admin/api/login",
            Endpoint::AdminLogout => "/admin/api/logout",
            Endpoint::AdminMe => "/admin/api/me",
            Endpoint::AdminListUsers => "/admin/api/users",
            Endpoint::AdminCreateUser => "/admin/api/users",
            Endpoint::AdminUpdateUser => "/admin/api/users/{user_id}",
            Endpoint::AdminDeleteUser => "/admin/api/users/{user_id}",
            Endpoint::AdminSetUserPassword => "/admin/api/users/{user_id}/password",
            Endpoint::AdminListEnvironments => "/admin/api/environments",
            Endpoint::AdminCreateEnvironment => "/admin/api/environments",
            Endpoint::AdminGetEnvironment => "/admin/api/environments/{env_id}",
            Endpoint::AdminRotateHmac => "/admin/api/environments/{env_id}/hmac/rotate",
            Endpoint::AdminCompleteHmacRotation => "/admin/api/environments/{env_id}/hmac/rotate/complete",
            Endpoint::AdminListApiKeys => "/admin/api/environments/{env_id}/api-keys",
            Endpoint::AdminCreateApiKey => "/admin/api/environments/{env_id}/api-keys",
            Endpoint::AdminRevokeApiKey => "/admin/api/environments/{env_id}/api-keys/{key_id}/revoke",
            Endpoint::AdminListNotifications => "/admin/api/environments/{env_id}/notifications",
            Endpoint::AdminNotificationTimeline => "/admin/api/environments/{env_id}/notifications/{notif_id}/timeline",
            Endpoint::AdminCreateBroadcast => "/admin/api/environments/{env_id}/broadcasts",
            Endpoint::AdminGetSubscriber => "/admin/api/environments/{env_id}/subscribers/{subscriber_id}",
            Endpoint::AdminListDlq => "/admin/api/dlq",
            Endpoint::AdminReplayAllDeadLetters => "/admin/api/dlq/replay-all",
            Endpoint::AdminReplayDeadLetter => "/admin/api/dlq/{job_id}/replay",
            Endpoint::AdminSpaRoot => "/admin",
            Endpoint::AdminSpa => "/admin/{*path}",
            Endpoint::Root => "/",
            Endpoint::Healthz => "/healthz",
            Endpoint::Readyz => "/readyz",
            Endpoint::Metrics => "/metrics",
        }
    }

    /// The plane it belongs to.
    pub fn plane(self) -> (r: Plane)
        ensures
            r == self.on_plane(),
            self is ListItems ==> r == Plane::Subscriber,
            self is GetCounts ==> r == Plane::Subscriber,
            self is GetFilteredCounts ==> r == Plane::Subscriber,
            self is MarkNotificationRead ==> r == Plane::Subscriber,
            self is MarkNotificationUnread ==> r == Plane::Subscriber,
            self is MarkBroadcastRead ==> r == Plane::Subscriber,
            self is MarkBroadcastUnread ==> r == Plane::Subscriber,
            self is ArchiveNotification ==> r == Plane::Subscriber,
            self is UnarchiveNotification ==> r == Plane::Subscriber,
            self is ArchiveBroadcast ==> r == Plane::Subscriber,
            self is UnarchiveBroadcast ==> r == Plane::Subscriber,
            self is MarkAllRead ==> r == Plane::Subscriber,
            self is MarkAllSeen ==> r == Plane::Subscriber,
            self is ArchiveAll ==> r == Plane::Subscriber,
            self is ArchiveRead ==> r == Plane::Subscriber,
            self is GetInboxPreferences ==> r == Plane::Subscriber,
            self is SetInboxPreferences ==> r == Plane::Subscriber,
            self is Stream ==> r == Plane::Subscriber,
            self is CreateNotifications ==> r == Plane::Management,
            self is GetNotificationTimeline ==> r == Plane::Management,
            self is CreateBroadcast ==> r == Plane::Management,
            self is UpsertSubscriber ==> r == Plane::Management,
            self is GetSubscriberPreferences ==> r == Plane::Management,
            self is SetSubscriberPreferences ==> r == Plane::Management,
            self is AdminLogin ==> r == Plane::Admin,
            self is AdminLogout ==> r == Plane::Admin,
            self is AdminMe ==> r == Plane::Admin,
            self is AdminListUsers ==> r == Plane::Admin,
            self is AdminCreateUser ==> r == Plane::Admin,
            self is AdminUpdateUser ==> r == Plane::Admin,
            self is AdminDeleteUser ==> r == Plane::Admin,
            self is AdminSetUserPassword ==> r == Plane::Admin,
            self is AdminListEnvironments ==> r == Plane::Admin,
            self is AdminCreateEnvironment ==> r == Plane::Admin,
            self is AdminGetEnvironment ==> r == Plane::Admin,
            self is AdminRotateHmac ==> r == Plane::Admin,
            self is AdminCompleteHmacRotation ==> r == Plane::Admin,
            self is AdminListApiKeys ==> r == Plane::Admin,
            self is AdminCreateApiKey ==> r == Plane::Admin,
            self is AdminRevokeApiKey ==> r == Plane::Admin,
            self is AdminListNotifications ==> r == Plane::Admin,
            self is AdminNotificationTimeline ==> r == Plane::Admin,
            self is AdminCreateBroadcast ==> r == Plane::Admin,
            self is AdminGetSubscriber ==> r == Plane::Admin,
            self is AdminListDlq ==> r == Plane::Admin,
            self is AdminReplayAllDeadLetters ==> r == Plane::Admin,
            self is AdminReplayDeadLetter ==> r == Plane::Admin,
            self is AdminSpaRoot ==> r == Plane::Admin,
            self is AdminSpa ==> r == Plane::Admin,
            self is Root ==> r == Plane::Operational,
            self is Healthz ==> r == Plane::Operational,
            self is Readyz ==> r == Plane::Operational,
            self is Metrics ==> r == Plane::Operational,
    {
        match self {
            Endpoint::ListItems
            | Endpoint::GetCounts
            | Endpoint::GetFilteredCounts
            | Endpoint::MarkNotificationRead
            | Endpoint::MarkNotificationUnread
            | Endpoint::MarkBroadcastRead
            | Endpoint::MarkBroadcastUnread
            | Endpoint::ArchiveNotification
            | Endpoint::UnarchiveNotification
            | Endpoint::ArchiveBroadcast
            | Endpoint::UnarchiveBroadcast
            | Endpoint::MarkAllRead
            | Endpoint::MarkAllSeen
            | Endpoint::ArchiveAll
            | Endpoint::ArchiveRead
            | Endpoint::GetInboxPreferences
            | Endpoint::SetInboxPreferences
            | Endpoint::Stream => Plane::Subscriber,
            Endpoint::CreateNotifications
            | Endpoint::GetNotificationTimeline
            | Endpoint::CreateBroadcast
            | Endpoint::UpsertSubscriber
            | Endpoint::GetSubscriberPreferences
            | Endpoint::SetSubscriberPreferences => Plane::Management,
            Endpoint::Root
            | Endpoint::Healthz
            | Endpoint::Readyz
            | Endpoint::Metrics => Plane::Operational,
            _ => Plane::Admin,
        }
    }

    /// Whether browsers of other origins may call it: only the subscriber
    /// plane, where the subscriber hash is the boundary, never the origin.
    pub fn has_cors(self) -> (r: bool)
        ensures
            r == (self.on_plane() == Plane::Subscriber),
            r <==> self is ListItems || self is GetCounts || self is GetFilteredCounts
                || self is MarkNotificationRead || self is MarkNotificationUnread
                || self is MarkBroadcastRead || self is MarkBroadcastUnread
                || self is ArchiveNotification || self is UnarchiveNotification
                || self is ArchiveBroadcast || self is UnarchiveBroadcast || self is MarkAllRead
                || self is MarkAllSeen || self is ArchiveAll || self is ArchiveRead
                || self is GetInboxPreferences || self is SetInboxPreferences || self is Stream,
    {
        match self.plane() {
            Plane::Subscriber => true,
            _ => false,
        }
    }
}

/// How many endpoints there are.
pub const ENDPOINTS: usize = 53;

/// Every endpoint, each once.
pub fn endpoints() -> (r: Vec<Endpoint>)
    ensures
        r@.len() == ENDPOINTS,
        forall|e: Endpoint| #![trigger e.place()] 0 <= e.place() < ENDPOINTS && r@[e.place()] == e,
        r@.no_duplicates(),
{
    let r: Vec<Endpoint> = vec![
        Endpoint::ListItems,
        Endpoint::GetCounts,
        Endpoint::GetFilteredCounts,
        Endpoint::MarkNotificationRead,
        Endpoint::MarkNotificationUnread,
        Endpoint::MarkBroadcastRead,
        Endpoint::MarkBroadcastUnread,
        Endpoint::ArchiveNotification,
        Endpoint::UnarchiveNotification,
        Endpoint::ArchiveBroadcast,
        Endpoint::UnarchiveBroadcast,
        Endpoint::MarkAllRead,
        Endpoint::MarkAllSeen,
        Endpoint::ArchiveAll,
        Endpoint::ArchiveRead,
        Endpoint::GetInboxPreferences,
        Endpoint::SetInboxPreferences,
        Endpoint::Stream,
        Endpoint::CreateNotifications,
        Endpoint::GetNotificationTimeline,
        Endpoint::CreateBroadcast,
        Endpoint::UpsertSubscriber,
        Endpoint::GetSubscriberPreferences,
        Endpoint::SetSubscriberPreferences,
        Endpoint::AdminLogin,
        Endpoint::AdminLogout,
        Endpoint::AdminMe,
        Endpoint::AdminListUsers,
        Endpoint::AdminCreateUser,
        Endpoint::AdminUpdateUser,
        Endpoint::AdminDeleteUser,
        Endpoint::AdminSetUserPassword,
        Endpoint::AdminListEnvironments,
        Endpoint::AdminCreateEnvironment,
        Endpoint::AdminGetEnvironment,
        Endpoint::AdminRotateHmac,
        Endpoint::AdminCompleteHmacRotation,
        Endpoint::AdminListApiKeys,
        Endpoint::AdminCreateApiKey,
        Endpoint::AdminRevokeApiKey,
        Endpoint::AdminListNotifications,
        Endpoint::AdminNotificationTimeline,
        Endpoint::AdminCreateBroadcast,
        Endpoint::AdminGetSubscriber,
        Endpoint::AdminListDlq,
        Endpoint::AdminReplayAllDeadLetters,
        Endpoint::AdminReplayDeadLetter,
        Endpoint::AdminSpaRoot,
        Endpoint::AdminSpa,
        Endpoint::Root,
        Endpoint::Healthz,
        Endpoint::Readyz,
        Endpoint::Metrics,
    ];
    proof {
        assert forall|i: int| 0 <= i < r@.len() implies (#[trigger] r@[i]).place() == i by {
        }
    }
    r
}

/// What browsers of other origins may do on the subscriber plane. The validator
/// is exposed explicitly: hidden, it would disable conditional refetch.
#[derive(Debug)]
pub struct CorsPolicy {
    /// Widgets run on arbitrary origins: the subscriber hash is the boundary,
    /// never the origin.
    pub any_origin: bool,
    pub methods: Vec<Method>,
    pub headers: Vec<&'static str>,
    pub exposed: Vec<&'static str>,
    pub max_age_seconds: u64,
}

/// The policy of the subscriber plane.
pub fn widget_cors() -> (r: CorsPolicy)
    ensures
        r.any_origin,
        r.methods@ == seq![Method::Get, Method::Post, Method::Put],
        r.headers@ == seq![
            "content-type",
            "if-none-match",
            "x-chimely-environment",
            "x-chimely-subscriber",
            "x-chimely-subscriber-hash",
        ],
        r.exposed@ == seq!["etag"],
        r.max_age_seconds == 3600,
{
    CorsPolicy {
        any_origin: true,
        methods: vec![Method::Get, Method::Post, Method::Put],
        headers: vec![
            "content-type",
            "if-none-match",
            "x-chimely-environment",
            "x-chimely-subscriber",
            "x-chimely-subscriber-hash",
        ],
        exposed: vec!["etag"],
        max_age_seconds: 3600,
    }
}

/// Where the server root leads.
#[derive(Clone, Copy, Debug)]
pub struct RootRedirect {
    pub target: &'static str,
    /// Whether browsers may remember it.
    pub permanent: bool,
}

/// The server root leads to the embedded dashboard, for the time being.
pub fn root_redirect() -> (r: RootRedirect)
    ensures
        r.target@ == "/admin"@,
        !r.permanent,
{
    RootRedirect { target: "/admin", permanent: false }
}

/// Where the rendered API reference is served.
pub const DOCS_PATH: &'static str = "/docs";

/// The reference is served under a path of its own.
pub proof fn where_the_reference_is_served()
    ensures
        DOCS_PATH@ == "/docs"@,
{
}

/// The document declares every endpoint of the three planes that answer with
/// data, and neither the pages of the dashboard nor the root nor the probes.
pub proof fn which_endpoints_are_documented(e: Endpoint)
    ensures
        e.on_plane() is Management || e.on_plane() is Subscriber ==> e.is_documented(),
        e.on_plane() is Operational ==> !e.is_documented(),
        e.on_plane() is Admin ==> (e.is_documented() <==> !(e is AdminSpaRoot) && !(e is AdminSpa)),
{
}

/// A browser may call every endpoint of the subscriber plane: the policy
/// allows its method.
pub proof fn the_policy_covers_the_subscriber_plane(e: Endpoint, methods: Seq<Method>)
    requires
        e.on_plane() == Plane::Subscriber,
        methods == seq![Method::Get, Method::Post, Method::Put],
    ensures
        methods.contains(e.routed_method()),
{
    assert(methods[0] == Method::Get && methods[1] == Method::Post && methods[2] == Method::Put);
}

/// Every endpoint is routed by the path and the method that are published for
/// it.
pub proof fn every_endpoint_is_routed_as_published(e: Endpoint)
    ensures
        e is ListItems ==> e.routed_method() is Get && e.routed_path() == "/v1/inbox/items"@,
        e is GetCounts ==> e.routed_method() is Get && e.routed_path() == "/v1/inbox/counts"@,
        e is GetFilteredCounts ==> e.routed_method() is Post && e.routed_path() == "/v1/inbox/counts"@,
        e is MarkNotificationRead ==> e.routed_method() is Post && e.routed_path() == "/v1/inbox/notifications/{id}/read"@,
        e is MarkNotificationUnread ==> e.routed_method() is Post && e.routed_path() == "/v1/inbox/notifications/{id}/unread"@,
        e is MarkBroadcastRead ==> e.routed_method() is Post && e.routed_path() == "/v1/inbox/broadcasts/{id}/read"@,
        e is MarkBroadcastUnread ==> e.routed_method() is Post && e.routed_path() == "/v1/inbox/broadcasts/{id}/unread"@,
        e is ArchiveNotification ==> e.routed_method() is Post && e.routed_path() == "/v1/inbox/notifications/{id}/archive"@,
        e is UnarchiveNotification ==> e.routed_method() is Post && e.routed_path() == "/v1/inbox/notifications/{id}/unarchive"@,
        e is ArchiveBroadcast ==> e.routed_method() is Post && e.routed_path() == "/v1/inbox/broadcasts/{id}/archive"@,
        e is UnarchiveBroadcast ==> e.routed_method() is Post && e.routed_path() == "/v1/inbox/broadcasts/{id}/unarchive"@,
        e is MarkAllRead ==> e.routed_method() is Post && e.routed_path() == "/v1/inbox/read-all"@,
        e is MarkAllSeen ==> e.routed_method() is Post && e.routed_path() == "/v1/inbox/seen-all"@,
        e is ArchiveAll ==> e.routed_method() is Post && e.routed_path() == "/v1/inbox/archive-all"@,
        e is ArchiveRead ==> e.routed_method() is Post && e.routed_path() == "/v1/inbox/archive-read"@,
        e is GetInboxPreferences ==> e.routed_method() is Get && e.routed_path() == "/v1/inbox/preferences"@,
        e is SetInboxPreferences ==> e.routed_method() is Put && e.routed_path() == "/v1/inbox/preferences"@,
        e is Stream ==> e.routed_method() is Get && e.routed_path() == "/v1/inbox/stream"@,
        e is CreateNotifications ==> e.routed_method() is Post && e.routed_path() == "/v1/notifications"@,
        e is GetNotificationTimeline ==> e.routed_method() is Get && e.routed_path() == "/v1/notifications/{id}/timeline"@,
        e is CreateBroadcast ==> e.routed_method() is Post && e.routed_path() == "/v1/broadcasts"@,
        e is UpsertSubscriber ==> e.routed_method() is Put && e.routed_path() == "/v1/subscribers/{subscriber_id}"@,
        e is GetSubscriberPreferences ==> e.routed_method() is Get && e.routed_path() == "/v1/subscribers/{subscriber_id}/preferences"@,
        e is SetSubscriberPreferences ==> e.routed_method() is Put && e.routed_path() == "/v1/subscribers/{subscriber_id}/preferences"@,
        e is AdminLogin ==> e.routed_method() is Post && e.routed_path() == "/admin/api/login"@,
        e is AdminLogout ==> e.routed_method() is Post && e.routed_path() == "/admin/api/logout"@,
        e is AdminMe ==> e.routed_method() is Get && e.routed_path() == "/admin/api/me"@,
        e is AdminListUsers ==> e.routed_method() is Get && e.routed_path() == "/admin/api/users"@,
        e is AdminCreateUser ==> e.routed_method() is Post && e.routed_path() == "/admin/api/users"@,
        e is AdminUpdateUser ==> e.routed_method() is Patch && e.routed_path() == "/admin/api/users/{user_id}"@,
        e is AdminDeleteUser ==> e.routed_method() is Delete && e.routed_path() == "/admin/api/users/{user_id}"@,
        e is AdminSetUserPassword ==> e.routed_method() is Post && e.routed_path() == "/admin/api/users/{user_id}/password"@,
        e is AdminListEnvironments ==> e.routed_method() is Get && e.routed_path() == "/admin/api/environments"@,
        e is AdminCreateEnvironment ==> e.routed_method() is Post && e.routed_path() == "/admin/api/environments"@,
        e is AdminGetEnvironment ==> e.routed_method() is Get && e.routed_path() == "/admin/api/environments/{env_id}"@,
        e is AdminRotateHmac ==> e.routed_method() is Post && e.routed_path() == "/admin/api/environments/{env_id}/hmac/rotate"@,
        e is AdminCompleteHmacRotation ==> e.routed_method() is Post && e.routed_path() == "/admin/api/environments/{env_id}/hmac/rotate/complete"@,
        e is AdminListApiKeys ==> e.routed_method() is Get && e.routed_path() == "/admin/api/environments/{env_id}/api-keys"@,
        e is AdminCreateApiKey ==> e.routed_method() is Post && e.routed_path() == "/admin/api/environments/{env_id}/api-keys"@,
        e is AdminRevokeApiKey ==> e.routed_method() is Post && e.routed_path() == "/admin/api/environments/{env_id}/api-keys/{key_id}/revoke"@,
        e is AdminListNotifications ==> e.routed_method() is Get && e.routed_path() == "/admin/api/environments/{env_id}/notifications"@,
        e is AdminNotificationTimeline ==> e.routed_method() is Get && e.routed_path() == "/admin/api/environments/{env_id}/notifications/{notif_id}/timeline"@,
        e is AdminCreateBroadcast ==> e.routed_method() is Post && e.routed_path() == "/admin/api/environments/{env_id}/broadcasts"@,
        e is AdminGetSubscriber ==> e.routed_method() is Get && e.routed_path() == "/admin/api/environments/{env_id}/subscribers/{subscriber_id}"@,
        e is AdminListDlq ==> e.routed_method() is Get && e.routed_path() == "/admin/api/dlq"@,
        e is AdminReplayAllDeadLetters ==> e.routed_method() is Post && e.routed_path() == "/admin/api/dlq/replay-all"@,
        e is AdminReplayDeadLetter ==> e.routed_method() is Post && e.routed_path() == "/admin/api/dlq/{job_id}/replay"@,
        e is AdminSpaRoot ==> e.routed_method() is Get && e.routed_path() == "/admin"@,
        e is AdminSpa ==> e.routed_method() is Get && e.routed_path() == "/admin/{*path}"@,
        e is Root ==> e.routed_method() is Get && e.routed_path() == "/"@,
        e is Healthz ==> e.routed_method() is Get && e.routed_path() == "/healthz"@,
        e is Readyz ==> e.routed_method() is Get && e.routed_path() == "/readyz"@,
        e is Metrics ==> e.routed_method() is Get && e.routed_path() == "/metrics"@,
{
}

/// The planes are told apart by their paths: the subscriber's stand under
/// `/v1/inbox/`, the other versioned ones are the management plane's, those
/// under `/admin` the dashboard's, and the rest are operational.
pub proof fn the_planes_are_told_apart_by_their_paths(e: Endpoint)
    ensures
        e.on_plane() is Subscriber <==> "/v1/inbox/"@.is_prefix_of(e.routed_path()),
        e.on_plane() is Management <==> "/v1/"@.is_prefix_of(e.routed_path())
            && !"/v1/inbox/"@.is_prefix_of(e.routed_path()),
        e.on_plane() is Admin <==> "/admin"@.is_prefix_of(e.routed_path()),
{
    reveal_strlit("/v1/inbox/");
    reveal_strlit("/v1/");
    reveal_strlit("/admin");
    reveal_strlit("/");
    reveal_strlit("/admin/api/dlq");
    reveal_strlit("/admin/api/dlq/replay-all");
    reveal_strlit("/admin/api/dlq/{job_id}/replay");
    reveal_strlit("/admin/api/environments");
    reveal_strlit("/admin/api/environments/{env_id}");
    reveal_strlit("/admin/api/environments/{env_id}/api-keys");
    reveal_strlit("/admin/api/environments/{env_id}/api-keys/{key_id}/revoke");
    reveal_strlit("/admin/api/environments/{env_id}/broadcasts");
    reveal_strlit("/admin/api/environments/{env_id}/hmac/rotate");
    reveal_strlit("/admin/api/environments/{env_id}/hmac/rotate/complete");
    reveal_strlit("/admin/api/environments/{env_id}/notifications");
    reveal_strlit("/admin/api/environments/{env_id}/notifications/{notif_id}/timeline");
    reveal_strlit("/admin/api/environments/{env_id}/subscribers/{subscriber_id}");
    reveal_strlit("/admin/api/login");
    reveal_strlit("/admin/api/logout");
    reveal_strlit("/admin/api/me");
    reveal_strlit("/admin/api/users");
    reveal_strlit("/admin/api/users/{user_id}");
    reveal_strlit("/admin/api/users/{user_id}/password");
    reveal_strlit("/admin/{*path}");
    reveal_strlit("/healthz");
    reveal_strlit("/metrics");
    reveal_strlit("/readyz");
    reveal_strlit("/v1/broadcasts");
    reveal_strlit("/v1/inbox/archive-all");
    reveal_strlit("/v1/inbox/archive-read");
    reveal_strlit("/v1/inbox/broadcasts/{id}/archive");
    reveal_strlit("/v1/inbox/broadcasts/{id}/read");
    reveal_strlit("/v1/inbox/broadcasts/{id}/unarchive");
    reveal_strlit("/v1/inbox/broadcasts/{id}/unread");
    reveal_strlit("/v1/inbox/counts");
    reveal_strlit("/v1/inbox/items");
    reveal_strlit("/v1/inbox/notifications/{id}/archive");
    reveal_strlit("/v1/inbox/notifications/{id}/read");
    reveal_strlit("/v1/inbox/notifications/{id}/unarchive");
    reveal_strlit("/v1/inbox/notifications/{id}/unread");
    reveal_strlit("/v1/inbox/preferences");
    reveal_strlit("/v1/inbox/read-all");
    reveal_strlit("/v1/inbox/seen-all");
    reveal_strlit("/v1/inbox/stream");
    reveal_strlit("/v1/notifications");
    reveal_strlit("/v1/notifications/{id}/timeline");
    reveal_strlit("/v1/subscribers/{subscriber_id}");
    reveal_strlit("/v1/subscribers/{subscriber_id}/preferences");
    let p = e.routed_path();
    lemma_prefix("/v1/inbox/"@, p);
    lemma_prefix("/v1/"@, p);
    lemma_prefix("/admin"@, p);
    let (a, b, c) = ("/v1/inbox/"@, "/v1/"@, "/admin"@);
    assert(a[1] == 'v' && a[2] == '1' && a[4] == 'i' && a[5] == 'n' && a[6] == 'b' && a[7] == 'o'
        && a[8] == 'x' && a[9] == '/');
    assert(b[1] == 'v' && b[2] == '1');
    assert(c[1] == 'a' && c[2] == 'd' && c[3] == 'm' && c[4] == 'i' && c[5] == 'n');
}

proof fn lemma_prefix(a: Seq<char>, p: Seq<char>)
    ensures
        a.is_prefix_of(p) <==> p.len() >= a.len() && forall|i: int|
            0 <= i < a.len() ==> #[trigger] a[i] == p[i],
{
    if a.is_prefix_of(p) {
        assert forall|i: int| 0 <= i < a.len() implies #[trigger] a[i] == p[i] by {
            assert(p.subrange(0, a.len() as int)[i] == p[i]);
        }
    }
    if p.len() >= a.len() && forall|i: int| 0 <= i < a.len() ==> #[trigger] a[i] == p[i] {
        assert(a =~= p.subrange(0, a.len() as int));
    }
}

} // verus!
