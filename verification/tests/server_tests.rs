use polyminis_server::{Json, ServerState};

#[test]
fn server_counts_simulations() {
    let mut server: ServerState<u8> = ServerState::new();
    assert_eq!(server.serialize(), Json::Object(vec![("NumSimulations".to_string(), Json::U64(0))]));
    server.add_simulation(7);
    server.add_simulation(9);
    assert_eq!(server.num_simulations(), 2);
    assert_eq!(server.simulation(0), Some(&7));
    assert_eq!(server.simulation(1), Some(&9));
    assert_eq!(server.simulation(2), None);
    assert_eq!(server.serialize(), Json::Object(vec![("NumSimulations".to_string(), Json::U64(2))]));
}
