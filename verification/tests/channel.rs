use flatipc::channel::{LendChannel, Server};

fn length_of(opcode: usize, signature: usize, arg: usize, buffer: &[u8]) -> (usize, usize) {
    (opcode + signature + arg, buffer.len())
}

fn fill(opcode: usize, _signature: usize, arg: usize, buffer: &mut Vec<u8>) -> (usize, usize) {
    for byte in buffer.iter_mut() {
        *byte = opcode as u8;
    }
    (arg, buffer.len())
}

#[test]
fn a_server_is_a_pair_of_handlers() {
    let server = Server::new(length_of, fill);
    assert_eq!((server.read)(1, 2, 3, &[0; 4]), (6, 4));
    let mut buffer = vec![0; 2];
    assert_eq!((server.write)(9, 0, 5, &mut buffer), (5, 2));
    assert_eq!(buffer, [9, 9]);
}

#[test]
fn connections_are_numbered_in_order_of_registration() {
    let mut channel = LendChannel::new();
    assert_eq!(channel.connections(), 0);
    assert_eq!(channel.register(length_of, fill), 0);
    assert_eq!(channel.register(length_of, fill), 1);
    assert_eq!(channel.register(length_of, fill), 2);
    assert_eq!(channel.connections(), 3);
}

#[test]
fn lend_returns_the_reply_of_the_read_handler() {
    let mut channel = LendChannel::new();
    let connection = channel.register(length_of, fill);
    assert_eq!(channel.lend(connection, 1, 20, 300, &[0; 7]), Some((321, 7)));
    assert_eq!(channel.lend(connection, 0, 0, 0, &[]), Some((0, 0)));
}

#[test]
fn lend_mut_leaves_the_writes_of_the_handler_in_the_buffer() {
    let mut channel = LendChannel::new();
    let connection = channel.register(length_of, fill);
    let mut buffer = vec![1, 2, 3];
    assert_eq!(channel.lend_mut(connection, 0xab, 0, 17, &mut buffer), Some((17, 3)));
    assert_eq!(buffer, [0xab, 0xab, 0xab]);
}

#[test]
fn an_unregistered_connection_gets_no_reply() {
    let mut channel = LendChannel::new();
    let mut buffer = vec![1, 2, 3];
    assert_eq!(channel.lend(0, 1, 2, 3, &buffer), None);
    assert_eq!(channel.lend_mut(0, 1, 2, 3, &mut buffer), None);
    let connection = channel.register(length_of, fill);
    assert_eq!(channel.lend(connection + 1, 1, 2, 3, &buffer), None);
    assert_eq!(channel.lend_mut(connection + 1, 1, 2, 3, &mut buffer), None);
    assert_eq!(channel.lend_mut(usize::MAX, 1, 2, 3, &mut buffer), None);
    assert_eq!(buffer, [1, 2, 3]);
}

type ReadHandler = Box<dyn Fn(usize, usize, usize, &[u8]) -> (usize, usize)>;
type WriteHandler = Box<dyn Fn(usize, usize, usize, &mut Vec<u8>) -> (usize, usize)>;

#[test]
fn each_connection_keeps_its_own_handlers() {
    let mut channel: LendChannel<ReadHandler, WriteHandler> = LendChannel::new();
    let first = channel.register(
        Box::new(|opcode, _signature, _arg, _buffer| (opcode * 10, 1)),
        Box::new(|_opcode, _signature, _arg, buffer| {
            buffer[0] = 1;
            (1, 1)
        }),
    );
    let second = channel.register(
        Box::new(|opcode, _signature, _arg, buffer| (opcode * 100, buffer.len())),
        Box::new(|_opcode, _signature, _arg, buffer| {
            buffer[0] = 2;
            (2, 2)
        }),
    );
    assert_eq!((first, second), (0, 1));
    assert_eq!(channel.lend(first, 4, 0, 0, &[]), Some((40, 1)));
    assert_eq!(channel.lend(second, 5, 0, 0, &[7, 7]), Some((500, 2)));

    let mut buffer = vec![0u8; 3];
    assert_eq!(channel.lend_mut(first, 0, 0, 0, &mut buffer), Some((1, 1)));
    assert_eq!(buffer, [1, 0, 0]);
    assert_eq!(channel.lend_mut(second, 0, 0, 0, &mut buffer), Some((2, 2)));
    assert_eq!(buffer, [2, 0, 0]);
    assert_eq!(channel.lend(first, 4, 0, 0, &[]), Some((40, 1)));
}
