use chimely::http::readiness::{readyz, SERVICE_UNAVAILABLE};
use chimely::http::routes::{
    endpoints, root_redirect, widget_cors, Endpoint, Method, Plane, DOCS_PATH,
};
use chimely::openapi::document::ApiDoc;

#[test]
fn readiness_gates_on_draining_and_the_probe() {
    assert_eq!(readyz(false, Some(true)), Ok("ok"));
    assert_eq!(readyz(false, Some(false)), Err(SERVICE_UNAVAILABLE));
    assert_eq!(readyz(false, None), Err(503));
    assert_eq!(readyz(true, Some(true)), Err(503));
}

#[test]
fn no_two_endpoints_share_method_and_path() {
    let all = endpoints();
    assert_eq!(all.len(), 53);
    for (i, a) in all.iter().enumerate() {
        for b in &all[i + 1..] {
            assert!(
                a.method() != b.method() || a.path() != b.path(),
                "{a:?} and {b:?}"
            );
        }
    }
}

#[test]
fn planes_keep_to_their_paths() {
    for e in endpoints() {
        match e.plane() {
            Plane::Subscriber => assert!(e.path().starts_with("/v1/inbox/")),
            Plane::Management => {
                assert!(e.path().starts_with("/v1/") && !e.path().starts_with("/v1/inbox/"))
            }
            Plane::Admin => assert!(e.path().starts_with("/admin")),
            Plane::Operational => assert!(!e.path().starts_with("/v1")),
        }
        assert_eq!(e.has_cors(), e.plane() == Plane::Subscriber);
    }
}

#[test]
fn cors_covers_the_subscriber_plane() {
    let cors = widget_cors();
    assert!(cors.any_origin);
    for e in endpoints() {
        if e.has_cors() {
            assert!(cors.methods.contains(&e.method()), "{e:?}");
        }
    }
    assert_eq!(
        cors.headers,
        [
            "content-type",
            "if-none-match",
            "x-chimely-environment",
            "x-chimely-subscriber",
            "x-chimely-subscriber-hash"
        ]
    );
    assert_eq!(cors.exposed, ["etag"]);
    assert_eq!(cors.max_age_seconds, 3600);
}

#[test]
fn declares_every_v1_path() {
    let paths: Vec<&str> = ApiDoc::operations().iter().map(|e| e.path()).collect();
    for path in [
        "/v1/notifications",
        "/v1/notifications/{id}/timeline",
        "/v1/broadcasts",
        "/v1/subscribers/{subscriber_id}",
        "/v1/subscribers/{subscriber_id}/preferences",
        "/v1/inbox/items",
        "/v1/inbox/counts",
        "/v1/inbox/notifications/{id}/read",
        "/v1/inbox/broadcasts/{id}/read",
        "/v1/inbox/read-all",
        "/v1/inbox/seen-all",
        "/v1/inbox/preferences",
        "/v1/inbox/stream",
    ] {
        assert!(paths.contains(&path), "missing path: {path}");
    }
}

#[test]
fn endpoints_are_routed_by_method_and_path() {
    assert_eq!(Endpoint::ListItems.method(), Method::Get);
    assert_eq!(Endpoint::GetFilteredCounts.method(), Method::Post);
    assert_eq!(Endpoint::GetFilteredCounts.path(), "/v1/inbox/counts");
    assert_eq!(Endpoint::SetInboxPreferences.method(), Method::Put);
    assert_eq!(Endpoint::AdminUpdateUser.method(), Method::Patch);
    assert_eq!(Endpoint::AdminDeleteUser.method(), Method::Delete);
    assert_eq!(Endpoint::AdminSpa.path(), "/admin/{*path}");
    assert_eq!(Endpoint::Root.path(), "/");
}

#[test]
fn the_root_leads_to_the_dashboard_for_the_time_being() {
    let to = root_redirect();
    assert_eq!((to.target, to.permanent), ("/admin", false));
    assert_eq!(DOCS_PATH, "/docs");
}

#[test]
fn the_document_leaves_out_pages_and_probes() {
    let declared = ApiDoc::operations();
    assert_eq!(declared.len(), 47);
    for e in endpoints() {
        let left_out = matches!(
            e,
            Endpoint::AdminSpaRoot
                | Endpoint::AdminSpa
                | Endpoint::Root
                | Endpoint::Healthz
                | Endpoint::Readyz
                | Endpoint::Metrics
        );
        assert_eq!(declared.contains(&e), !left_out, "{e:?}");
        assert_eq!(e.documented(), !left_out);
    }
}
