use spi_shared_bus::{Call, DeviceError, OpKind, Operation, Response, Step, Transaction};

/// A bus, pin and delay provider in one: it records every call, fills read
/// buffers from `incoming`, and fails the calls whose positions are listed.
struct Mock {
    log: Vec<Call>,
    sent: Vec<u8>,
    incoming: Vec<u8>,
    fail_at: Vec<usize>,
}

impl Mock {
    fn new(incoming: Vec<u8>, fail_at: Vec<usize>) -> Mock {
        Mock { log: Vec::new(), sent: Vec::new(), incoming, fail_at }
    }

    fn status(&self) -> Result<(), usize> {
        let pos = self.log.len() - 1;
        if self.fail_at.contains(&pos) {
            Err(pos)
        } else {
            Ok(())
        }
    }

    fn fill(&self, buf: &mut [u8]) {
        for (i, w) in buf.iter_mut().enumerate() {
            *w = self.incoming[i];
        }
    }

    fn perform(&mut self, call: Call, ops: &mut [Operation<'_, u8>]) -> Response<usize, usize> {
        self.log.push(call);
        let status = self.status();
        match call {
            Call::SetCsLow | Call::SetCsHigh => Response::Pin(status),
            Call::Flush => Response::Bus(status),
            Call::DelayUs(_) => Response::Elapsed,
            Call::Read(i) => {
                if status.is_ok() {
                    match &mut ops[i] {
                        Operation::Read(buf) => self.fill(buf),
                        _ => panic!("read issued for another operation"),
                    }
                }
                Response::Bus(status)
            }
            Call::Write(i) => {
                if status.is_ok() {
                    match &ops[i] {
                        Operation::Write(buf) => self.sent.extend_from_slice(buf),
                        _ => panic!("write issued for another operation"),
                    }
                }
                Response::Bus(status)
            }
            Call::Transfer(i) => {
                if status.is_ok() {
                    match &mut ops[i] {
                        Operation::Transfer(read, write) => {
                            self.sent.extend_from_slice(write);
                            self.fill(read);
                        }
                        _ => panic!("transfer issued for another operation"),
                    }
                }
                Response::Bus(status)
            }
            Call::TransferInPlace(i) => {
                if status.is_ok() {
                    match &mut ops[i] {
                        Operation::TransferInPlace(buf) => {
                            self.sent.extend_from_slice(buf);
                            self.fill(buf);
                        }
                        _ => panic!("in-place transfer issued for another operation"),
                    }
                }
                Response::Bus(status)
            }
        }
    }
}

fn drive(ops: &mut [Operation<'_, u8>], mock: &mut Mock) -> Result<(), DeviceError<usize, usize>> {
    let (mut t, mut call) = Transaction::begin();
    loop {
        let response = mock.perform(call, ops);
        match t.resume(ops, response) {
            Step::Issue(next, c) => {
                t = next;
                call = c;
            }
            Step::Complete(r) => return r,
        }
    }
}

#[test]
fn write_delay_read_on_healthy_bus() {
    let mut buf = [0u8; 3];
    let mut mock = Mock::new(vec![0xA1, 0xB2, 0xC3], vec![]);
    let r = {
        let mut ops = [Operation::Write(&[0x01, 0x02]), Operation::DelayUs(100), Operation::Read(&mut buf)];
        drive(&mut ops, &mut mock)
    };
    assert_eq!(r, Ok(()));
    assert_eq!(
        mock.log,
        vec![
            Call::SetCsLow,
            Call::Write(0),
            Call::Flush,
            Call::DelayUs(100),
            Call::Read(2),
            Call::Flush,
            Call::SetCsHigh,
        ]
    );
    assert_eq!(mock.sent, vec![0x01, 0x02]);
    assert_eq!(buf, [0xA1, 0xB2, 0xC3]);
}

#[test]
fn failed_write_stops_the_transaction() {
    let mut buf = [0u8; 3];
    let mut mock = Mock::new(vec![0xA1, 0xB2, 0xC3], vec![1]);
    let r = {
        let mut ops = [Operation::Write(&[0x01, 0x02]), Operation::DelayUs(100), Operation::Read(&mut buf)];
        drive(&mut ops, &mut mock)
    };
    assert_eq!(r, Err(DeviceError::Spi(1)));
    assert_eq!(mock.log, vec![Call::SetCsLow, Call::Write(0), Call::Flush, Call::SetCsHigh]);
    assert_eq!(buf, [0, 0, 0]);
}

#[test]
fn operation_error_wins_over_flush_and_release_errors() {
    let mut mock = Mock::new(vec![], vec![1, 2, 3]);
    let mut ops = [Operation::Write(&[0x05]), Operation::Write(&[0x06])];
    let r = drive(&mut ops, &mut mock);
    assert_eq!(r, Err(DeviceError::Spi(1)));
    assert_eq!(mock.log, vec![Call::SetCsLow, Call::Write(0), Call::Flush, Call::SetCsHigh]);
}

#[test]
fn flush_error_wins_over_release_error() {
    let mut mock = Mock::new(vec![], vec![2, 3]);
    let mut ops = [Operation::Write(&[0x05])];
    let r = drive(&mut ops, &mut mock);
    assert_eq!(r, Err(DeviceError::Spi(2)));
    assert_eq!(mock.log, vec![Call::SetCsLow, Call::Write(0), Call::Flush, Call::SetCsHigh]);
}

#[test]
fn release_error_is_a_cs_error() {
    let mut mock = Mock::new(vec![], vec![3]);
    let mut ops = [Operation::Write(&[0x05])];
    let r = drive(&mut ops, &mut mock);
    assert_eq!(r, Err(DeviceError::Cs(3)));
    assert_eq!(mock.log, vec![Call::SetCsLow, Call::Write(0), Call::Flush, Call::SetCsHigh]);
}

#[test]
fn empty_transaction_toggles_chip_select() {
    let mut mock = Mock::new(vec![], vec![]);
    let mut ops: [Operation<'_, u8>; 0] = [];
    let r = drive(&mut ops, &mut mock);
    assert_eq!(r, Ok(()));
    assert_eq!(mock.log, vec![Call::SetCsLow, Call::Flush, Call::SetCsHigh]);
}

#[test]
fn failed_select_makes_no_other_call() {
    let mut mock = Mock::new(vec![], vec![0]);
    let mut ops = [Operation::Write(&[0x05])];
    let r = drive(&mut ops, &mut mock);
    assert_eq!(r, Err(DeviceError::Cs(0)));
    assert_eq!(mock.log, vec![Call::SetCsLow]);
}

#[test]
fn failed_flush_before_delay_skips_the_delay() {
    let mut mock = Mock::new(vec![], vec![2]);
    let mut ops = [Operation::Write(&[0x07]), Operation::DelayUs(5), Operation::Write(&[0x08])];
    let r = drive(&mut ops, &mut mock);
    assert_eq!(r, Err(DeviceError::Spi(2)));
    assert_eq!(
        mock.log,
        vec![Call::SetCsLow, Call::Write(0), Call::Flush, Call::Flush, Call::SetCsHigh]
    );
    assert_eq!(mock.sent, vec![0x07]);
}

#[test]
fn every_delay_follows_a_flush() {
    let mut mock = Mock::new(vec![], vec![]);
    let mut ops = [
        Operation::DelayUs(1),
        Operation::DelayUs(2),
        Operation::Write(&[0x09]),
        Operation::DelayUs(3),
    ];
    let r = drive(&mut ops, &mut mock);
    assert_eq!(r, Ok(()));
    assert_eq!(
        mock.log,
        vec![
            Call::SetCsLow,
            Call::Flush,
            Call::DelayUs(1),
            Call::Flush,
            Call::DelayUs(2),
            Call::Write(2),
            Call::Flush,
            Call::DelayUs(3),
            Call::Flush,
            Call::SetCsHigh,
        ]
    );
}

#[test]
fn transfers_reach_the_matching_primitives_in_order() {
    let mut rx = [0u8; 2];
    let mut inplace = [0x30u8, 0x31];
    let mut mock = Mock::new(vec![0x50, 0x51], vec![]);
    let r = {
        let mut ops = [
            Operation::Transfer(&mut rx, &[0x10, 0x11, 0x12]),
            Operation::TransferInPlace(&mut inplace),
        ];
        drive(&mut ops, &mut mock)
    };
    assert_eq!(r, Ok(()));
    assert_eq!(
        mock.log,
        vec![Call::SetCsLow, Call::Transfer(0), Call::TransferInPlace(1), Call::Flush, Call::SetCsHigh]
    );
    assert_eq!(mock.sent, vec![0x10, 0x11, 0x12, 0x30, 0x31]);
    assert_eq!(rx, [0x50, 0x51]);
    assert_eq!(inplace, [0x50, 0x51]);
}

#[test]
fn operations_after_a_failure_never_run() {
    let mut buf = [0u8; 1];
    let mut mock = Mock::new(vec![0xEE], vec![2]);
    let r = {
        let mut ops = [Operation::Write(&[0x01]), Operation::Write(&[0x02]), Operation::Read(&mut buf)];
        drive(&mut ops, &mut mock)
    };
    assert_eq!(r, Err(DeviceError::Spi(2)));
    assert_eq!(mock.log, vec![Call::SetCsLow, Call::Write(0), Call::Write(1), Call::Flush, Call::SetCsHigh]);
    assert_eq!(mock.sent, vec![0x01]);
    assert_eq!(buf, [0]);
}

#[test]
fn a_delay_cannot_fail() {
    let mut ops = [Operation::<u8>::DelayUs(9)];
    let (t, call) = Transaction::<usize, usize>::begin();
    assert_eq!(call, Call::SetCsLow);
    let t = match t.resume(&ops, Response::Pin(Ok(()))) {
        Step::Issue(t, c) => {
            assert_eq!(c, Call::Flush);
            t
        }
        Step::Complete(_) => panic!("finished early"),
    };
    let t = match t.resume(&ops, Response::Bus(Ok(()))) {
        Step::Issue(t, c) => {
            assert_eq!(c, Call::DelayUs(9));
            t
        }
        Step::Complete(_) => panic!("finished early"),
    };
    match t.resume(&mut ops, Response::Bus(Err(4))) {
        Step::Issue(_, c) => assert_eq!(c, Call::Flush),
        Step::Complete(_) => panic!("finished early"),
    }
}

#[test]
fn operation_kinds() {
    let mut a = [0u8; 1];
    let mut b = [0u8; 1];
    let mut c = [0u8; 1];
    assert_eq!(Operation::Read(&mut a).op_kind(), OpKind::Read);
    assert_eq!(Operation::Write(&[1u8]).op_kind(), OpKind::Write);
    assert_eq!(Operation::Transfer(&mut b, &[1u8]).op_kind(), OpKind::Transfer);
    assert_eq!(Operation::TransferInPlace(&mut c).op_kind(), OpKind::TransferInPlace);
    assert_eq!(Operation::<u8>::DelayUs(7).op_kind(), OpKind::DelayUs(7));
}

#[test]
fn operations_compare_by_contents() {
    let mut a = [1u8, 2];
    let mut b = [1u8, 2];
    assert_eq!(Operation::Read(&mut a), Operation::Read(&mut b));
    assert_ne!(Operation::<u8>::Write(&[1]), Operation::Write(&[2]));
    assert_ne!(Operation::<u8>::DelayUs(1), Operation::DelayUs(2));
}
