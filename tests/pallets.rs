use xregister::codec::XregisterCall;
use xregister::origin::{ensure_sibling_para, ensure_signed, BadOrigin, Origin};
use xregister::registry::Registry;
use xregister::xclient;
use xregister::xserver;

fn account(b: u8) -> [u8; 32] {
    [b; 32]
}

fn client() -> xclient::Pallet {
    xclient::Pallet::new(xclient::Config {
        server_para_id: 2000,
        pallet_index: 7,
        method_index: 3,
        weight_at_most: 1_000_000,
    })
}

#[test]
fn origin_checks() {
    assert_eq!(ensure_signed(&Origin::Signed(account(4))).unwrap(), account(4));
    assert_eq!(ensure_signed(&Origin::Unsigned), Err(BadOrigin));
    assert_eq!(ensure_signed(&Origin::SiblingParachain(5)), Err(BadOrigin));
    assert_eq!(ensure_sibling_para(&Origin::SiblingParachain(5)), Ok(5));
    assert_eq!(ensure_sibling_para(&Origin::Relay), Err(BadOrigin));
    assert_eq!(ensure_sibling_para(&Origin::Signed(account(4))), Err(BadOrigin));
}

#[test]
fn client_rejects_unsigned_origin() {
    let p = client();
    for origin in [Origin::Unsigned, Origin::Root, Origin::Relay, Origin::SiblingParachain(2000)] {
        assert!(matches!(p.xregister(origin, b"x".to_vec()), Err(xclient::Error::UnauthorizedOrigin)));
    }
}

#[test]
fn client_builds_request_for_server() {
    let a = account(0xA1);
    let p = client();
    let req = p.xregister(Origin::Signed(a), b"shipname".to_vec()).expect("signed");
    assert_eq!(req.dest, xclient::Destination { parents: 1, parachain: 2000 });
    let xclient::Xcm::Transact { origin_type, require_weight_at_most, call } = req.message.clone();
    assert_eq!(origin_type, xclient::OriginKind::Native);
    assert_eq!(require_weight_at_most, 1_000_000);
    let decoded = XregisterCall::decode(&call).expect("decodes");
    assert_eq!(decoded.call_index, [7, 3]);
    assert_eq!(decoded.account, a);
    assert_eq!(decoded.name, b"shipname".to_vec());
    match p.xregister_sent(req, Ok(())) {
        Ok(xclient::Event::Xregister(who, name)) => {
            assert_eq!(who, a);
            assert_eq!(name, b"shipname".to_vec());
        }
        other => panic!("unexpected {:?}", other),
    }
}

#[test]
fn client_reports_transport_failure() {
    let p = client();
    let req = p.xregister(Origin::Signed(account(1)), b"shipname".to_vec()).unwrap();
    assert!(matches!(p.xregister_sent(req, Err(xclient::SendError)), Err(xclient::Error::XcmSendError)));
}

#[test]
fn server_records_name_from_sibling() {
    let a = account(0xA1);
    let mut s = xserver::Pallet::new();
    assert_eq!(s.register(&a), Vec::<u8>::new());
    match s.xregister(Origin::SiblingParachain(2000), a, b"shipname".to_vec()) {
        Ok(xserver::Event::Xregister(para, who, name)) => {
            assert_eq!(para, 2000);
            assert_eq!(who, a);
            assert_eq!(name, b"shipname".to_vec());
        }
        other => panic!("unexpected {:?}", other),
    }
    assert_eq!(s.register(&a), b"shipname".to_vec());
}

#[test]
fn server_twice_same_name_is_idempotent() {
    let a = account(2);
    let mut s = xserver::Pallet::new();
    assert!(s.xregister(Origin::SiblingParachain(1000), a, b"alice".to_vec()).is_ok());
    let once = s.register(&a);
    assert!(s.xregister(Origin::SiblingParachain(1000), a, b"alice".to_vec()).is_ok());
    assert_eq!(s.register(&a), once);
    assert_eq!(once, b"alice".to_vec());
}

#[test]
fn server_last_write_wins() {
    let a = account(3);
    let mut s = xserver::Pallet::new();
    s.xregister(Origin::SiblingParachain(1000), a, b"alice".to_vec()).unwrap();
    s.xregister(Origin::SiblingParachain(1000), a, b"bob".to_vec()).unwrap();
    assert_eq!(s.register(&a), b"bob".to_vec());
}

#[test]
fn server_other_chain_overwrites_same_account() {
    let a = account(3);
    let mut s = xserver::Pallet::new();
    s.xregister(Origin::SiblingParachain(1000), a, b"alice".to_vec()).unwrap();
    s.xregister(Origin::SiblingParachain(3000), a, b"carol".to_vec()).unwrap();
    assert_eq!(s.register(&a), b"carol".to_vec());
}

#[test]
fn server_rejects_local_signed_origin() {
    let a = account(5);
    let b = account(6);
    let mut s = xserver::Pallet::new();
    s.xregister(Origin::SiblingParachain(1000), b, b"bob".to_vec()).unwrap();
    for origin in [Origin::Signed(a), Origin::Root, Origin::Unsigned, Origin::Relay] {
        assert!(matches!(
            s.xregister(origin, a, b"mallory".to_vec()),
            Err(xserver::Error::OriginNotSiblingChain)
        ));
    }
    assert_eq!(s.register(&a), Vec::<u8>::new());
    assert_eq!(s.register(&b), b"bob".to_vec());
}

#[test]
fn server_dispatches_client_call() {
    let a = account(0xA1);
    let req = client().xregister(Origin::Signed(a), b"shipname".to_vec()).unwrap();
    let xclient::Xcm::Transact { call, .. } = req.message;
    let mut s = xserver::Pallet::new();
    match s.dispatch(Origin::SiblingParachain(2000), &call, 7, 3) {
        Ok(xserver::Event::Xregister(para, who, name)) => {
            assert_eq!(para, 2000);
            assert_eq!(who, a);
            assert_eq!(name, b"shipname".to_vec());
        }
        other => panic!("unexpected {:?}", other),
    }
    assert_eq!(s.register(&a), b"shipname".to_vec());
}

#[test]
fn server_dispatch_rejects_other_method_and_bad_bytes() {
    let a = account(0xA1);
    let call = XregisterCall::new(7, 4, a, b"n".to_vec()).encode();
    let mut s = xserver::Pallet::new();
    assert_eq!(
        s.dispatch(Origin::SiblingParachain(2000), &call, 7, 3).unwrap_err(),
        xserver::DispatchError::MalformedEnvelope
    );
    assert_eq!(
        s.dispatch(Origin::SiblingParachain(2000), &vec![7, 3, 0], 7, 3).unwrap_err(),
        xserver::DispatchError::MalformedEnvelope
    );
    let good = XregisterCall::new(7, 3, a, b"n".to_vec()).encode();
    assert_eq!(
        s.dispatch(Origin::Signed(a), &good, 7, 3).unwrap_err(),
        xserver::DispatchError::Module(xserver::Error::OriginNotSiblingChain)
    );
    assert_eq!(s.register(&a), Vec::<u8>::new());
}

#[test]
fn registry_insert_and_get() {
    let mut r = Registry::new();
    assert_eq!(r.get(&account(1)), None);
    r.insert(account(1), b"one".to_vec());
    r.insert(account(2), b"two".to_vec());
    r.insert(account(1), b"uno".to_vec());
    assert_eq!(r.get(&account(1)), Some(b"uno".to_vec()));
    assert_eq!(r.get(&account(2)), Some(b"two".to_vec()));
    assert_eq!(r.get(&account(3)), None);
}
