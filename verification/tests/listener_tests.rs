use miel::configuration::types::{IpAddress, Protocol, ServiceConfig};
use miel::network::network_listener::listening_ports;
use miel::network::types::{SessionRequest, SocketAddress};

fn service_on(port: u16) -> ServiceConfig {
    ServiceConfig {
        name: format!("svc-{}", port),
        port,
        protocol: Protocol::TCP,
        container_image: "unknown".to_owned(),
        enabled: true,
        header_patterns: vec![],
        banner_response: None,
    }
}

#[test]
fn test_listening_ports_deduplicates() {
    let services = vec![service_on(8080), service_on(8443), service_on(8080)];
    let ports = listening_ports(&services);
    assert_eq!(ports.len(), 2);
    assert!(ports.contains(&8080));
    assert!(ports.contains(&8443));
}

#[test]
fn test_listening_ports_empty_catalog() {
    let ports = listening_ports(&[]);
    assert!(ports.is_empty());
}

#[test]
fn test_session_request_carries_its_inputs() {
    let addr = SocketAddress { ip: IpAddress::V4(0x7F000001), port: 50123 };
    let request = SessionRequest::new(42usize, "http".to_owned(), addr, 1_700_000_000_000);
    assert_eq!(request.stream, 42);
    assert_eq!(request.service_name, "http");
    assert_eq!(request.client_addr, addr);
    assert_eq!(request.timestamp_millis, 1_700_000_000_000);
}

#[test]
fn test_fanout_one_request_per_connection() {
    // 100 connection handlers split over two ports each enqueue one session
    // request; exactly 100 arrive, each carrying the address of its own
    // connection
    let runtime = tokio::runtime::Builder::new_multi_thread()
        .worker_threads(4)
        .enable_all()
        .build()
        .unwrap();
    runtime.block_on(async {
        let (tx, mut rx) = tokio::sync::mpsc::channel::<SessionRequest<u32>>(16);
        for i in 0..100u32 {
            let tx = tx.clone();
            tokio::spawn(async move {
                let local_port = if i % 2 == 0 { 8080 } else { 8443 };
                let addr = SocketAddress { ip: IpAddress::V4(0x0A000000 + i), port: 40000 + i as u16 };
                let request = SessionRequest::new(i, format!("svc-{}", local_port), addr, i as i64);
                tx.send(request).await.unwrap();
            });
        }
        drop(tx);
        let mut seen = 0u32;
        while let Some(request) = rx.recv().await {
            // the address matches the originating connection
            assert_eq!(request.client_addr.ip, IpAddress::V4(0x0A000000 + request.stream));
            assert_eq!(request.client_addr.port, 40000 + request.stream as u16);
            seen += 1;
        }
        assert_eq!(seen, 100);
    });
}

#[test]
fn test_backpressure_blocks_second_sender() {
    // with capacity 1 and a stalled consumer, the second handler's send
    // suspends instead of dropping the session or failing
    let runtime = tokio::runtime::Builder::new_multi_thread()
        .worker_threads(2)
        .enable_all()
        .build()
        .unwrap();
    runtime.block_on(async {
        let (tx, mut rx) = tokio::sync::mpsc::channel::<SessionRequest<u32>>(1);
        let addr = SocketAddress { ip: IpAddress::V4(1), port: 1 };
        tx.send(SessionRequest::new(1, "first".to_owned(), addr, 0)).await.unwrap();

        // a second immediate enqueue reports a full channel, not a closed one
        let full = tx.try_send(SessionRequest::new(2, "second".to_owned(), addr, 0));
        assert!(matches!(full, Err(tokio::sync::mpsc::error::TrySendError::Full(_))));

        // a concurrent handler blocks on send until the consumer drains
        let tx2 = tx.clone();
        let pending = tokio::spawn(async move {
            tx2.send(SessionRequest::new(3, "third".to_owned(), addr, 0)).await.unwrap();
        });
        tokio::time::sleep(tokio::time::Duration::from_millis(100)).await;
        assert!(!pending.is_finished());

        let first = rx.recv().await.unwrap();
        assert_eq!(first.service_name, "first");
        pending.await.unwrap();
        let third = rx.recv().await.unwrap();
        assert_eq!(third.service_name, "third");
    });
}
