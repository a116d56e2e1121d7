use core::time::Duration;
use led_matrix_serial_api::discovery::{Bus, Endpoint};
use led_matrix_serial_api::error::IoKind;
use led_matrix_serial_api::transport::Port;
use led_matrix_serial_api::{get_device_names, Error, LedMatrix, Transport};
use std::cell::Cell;
use std::collections::VecDeque;
use std::rc::Rc;

#[derive(Debug, Clone, PartialEq)]
enum Call {
    Write(Vec<u8>),
    Flush,
    Read,
    SetTimeout(Duration),
}

/// A link that records what is asked of it and answers as it was told to.
struct Probe {
    name: Option<String>,
    opened: Option<(String, u32, Duration)>,
    clock: Rc<Cell<u32>>,
    calls: Vec<(u32, Call)>,
    replies: VecDeque<[u8; 32]>,
    fail_write: Option<Error>,
    fail_flush: Option<Error>,
    fail_timeout: Option<Error>,
}

impl Probe {
    fn new(clock: &Rc<Cell<u32>>) -> Probe {
        Probe {
            name: None,
            opened: None,
            clock: clock.clone(),
            calls: Vec::new(),
            replies: VecDeque::new(),
            fail_write: None,
            fail_flush: None,
            fail_timeout: None,
        }
    }

    fn named(mut self, name: &str) -> Probe {
        self.name = Some(name.to_string());
        self
    }

    fn replying(mut self, status: u8) -> Probe {
        let mut reply = [0xEEu8; 32];
        reply[0] = status;
        self.replies.push_back(reply);
        self
    }

    fn record(&mut self, call: Call) {
        let tick = self.clock.get();
        self.clock.set(tick + 1);
        self.calls.push((tick, call));
    }

    fn asked(&self) -> Vec<Call> {
        self.calls.iter().map(|(_, call)| call.clone()).collect()
    }
}

impl Transport for Probe {
    fn endpoints() -> Result<Vec<Endpoint>, Error> {
        Ok(vec![
            Endpoint { name: "/dev/ttyS0".to_string(), bus: Bus::Pci },
            Endpoint { name: "/dev/ttyACM0".to_string(), bus: Bus::Usb { vid: 12972, pid: 32 } },
            Endpoint { name: "/dev/ttyUSB0".to_string(), bus: Bus::Usb { vid: 1027, pid: 24577 } },
            Endpoint { name: "/dev/ttyACM1".to_string(), bus: Bus::Usb { vid: 12972, pid: 32 } },
        ])
    }

    fn open(path: &str, baud_rate: u32, timeout: Duration) -> Result<Self, Error> {
        if path.contains("missing") {
            return Err(Error::SerialNoDevice(path.to_string()));
        }
        let mut probe = Probe::new(&Rc::new(Cell::new(0))).named(path);
        probe.opened = Some((path.to_string(), baud_rate, timeout));
        Ok(probe)
    }

    fn write(&mut self, bytes: &[u8]) -> Result<(), Error> {
        self.record(Call::Write(bytes.to_vec()));
        match &self.fail_write {
            Some(e) => Err(e.clone()),
            None => Ok(()),
        }
    }

    fn flush(&mut self) -> Result<(), Error> {
        self.record(Call::Flush);
        match &self.fail_flush {
            Some(e) => Err(e.clone()),
            None => Ok(()),
        }
    }

    fn read_exact(&mut self, buf: &mut [u8; 32]) -> Result<(), Error> {
        self.record(Call::Read);
        match self.replies.pop_front() {
            Some(reply) => {
                *buf = reply;
                Ok(())
            }
            None => Err(Error::Io(IoKind::TimedOut, "timed out".to_string())),
        }
    }

    fn set_timeout(&mut self, timeout: Duration) -> Result<(), Error> {
        self.record(Call::SetTimeout(timeout));
        match &self.fail_timeout {
            Some(e) => Err(e.clone()),
            None => Ok(()),
        }
    }

    fn name(&self) -> Option<String> {
        self.name.clone()
    }
}

/// A host whose serial subsystem cannot be asked.
struct Blind;

impl Transport for Blind {
    fn endpoints() -> Result<Vec<Endpoint>, Error> {
        Err(Error::SerialUnknown("no permission".to_string()))
    }

    fn open(path: &str, _baud_rate: u32, _timeout: Duration) -> Result<Self, Error> {
        Err(Error::SerialNoDevice(path.to_string()))
    }

    fn write(&mut self, _bytes: &[u8]) -> Result<(), Error> {
        Ok(())
    }

    fn flush(&mut self) -> Result<(), Error> {
        Ok(())
    }

    fn read_exact(&mut self, _buf: &mut [u8; 32]) -> Result<(), Error> {
        Ok(())
    }

    fn set_timeout(&mut self, _timeout: Duration) -> Result<(), Error> {
        Ok(())
    }

    fn name(&self) -> Option<String> {
        None
    }
}

fn probes(matrix: &LedMatrix<Probe>) -> Vec<&Probe> {
    match matrix {
        LedMatrix::Device(port) => vec![port.inner()],
        LedMatrix::Collection(ports) => ports.iter().map(|port| port.inner()).collect(),
    }
}

fn clock() -> Rc<Cell<u32>> {
    Rc::new(Cell::new(0))
}

fn frame(body: &[u8]) -> Vec<u8> {
    [&[0x32u8, 0xAC][..], body].concat()
}

fn sent(body: &[u8]) -> Vec<Call> {
    vec![Call::Write(frame(body)), Call::Flush]
}

#[test]
fn a_single_device_gets_the_frame_and_a_flush() {
    let mut matrix = LedMatrix::device(Probe::new(&clock()));
    assert_eq!(matrix.set_brightness(77), Ok(()));
    assert_eq!(probes(&matrix)[0].asked(), sent(&[0x00, 77]));
}

#[test]
fn the_device_variant_can_be_built_from_a_port() {
    let mut matrix = LedMatrix::Device(Port::new(Probe::new(&clock())));
    assert_eq!(matrix.zigzag(), Ok(()));
    assert_eq!(probes(&matrix)[0].asked(), sent(&[0x01, 0x04]));
}

#[test]
fn presets_send_their_opcode_pair() {
    let mut matrix = LedMatrix::device(Probe::new(&clock()));
    matrix.gradient().unwrap();
    matrix.double_gradient().unwrap();
    matrix.lotus_horizontal().unwrap();
    matrix.zigzag().unwrap();
    matrix.full_brightness().unwrap();
    matrix.panic().unwrap();
    matrix.lotus_vertical().unwrap();
    matrix.test().unwrap();
    let mut expected = Vec::new();
    for second in 1u8..=8 {
        expected.extend(sent(&[0x01, second]));
    }
    assert_eq!(probes(&matrix)[0].asked(), expected);
}

#[test]
fn a_group_gets_the_same_frame_device_by_device_in_order() {
    let clock = clock();
    let mut matrix = LedMatrix::from_links(vec![Probe::new(&clock), Probe::new(&clock)]);
    assert_eq!(matrix.set_sleep(true), Ok(()));
    let both = probes(&matrix);
    assert_eq!(both.len(), 2);
    assert_eq!(both[0].calls, vec![(0, Call::Write(frame(&[0x03, 1]))), (1, Call::Flush)]);
    assert_eq!(both[1].calls, vec![(2, Call::Write(frame(&[0x03, 1]))), (3, Call::Flush)]);
}

#[test]
fn a_group_reports_the_flag_of_each_device() {
    let clock = clock();
    let mut matrix = LedMatrix::from_links(vec![
        Probe::new(&clock).replying(1),
        Probe::new(&clock).replying(0),
    ]);
    assert_eq!(matrix.get_sleep(), Ok(vec![true, false]));
    let both = probes(&matrix);
    assert_eq!(
        both[0].calls,
        vec![(0, Call::Write(frame(&[0x03]))), (1, Call::Flush), (4, Call::Read)]
    );
    assert_eq!(
        both[1].calls,
        vec![(2, Call::Write(frame(&[0x03]))), (3, Call::Flush), (5, Call::Read)]
    );
}

#[test]
fn queries_return_one_status_per_device() {
    let clock = clock();
    let mut matrix = LedMatrix::from_links(vec![
        Probe::new(&clock).replying(20).replying(2),
        Probe::new(&clock).replying(255).replying(0),
    ]);
    assert_eq!(matrix.get_brightness(), Ok(vec![20, 255]));
    assert_eq!(matrix.get_animate(), Ok(vec![true, false]));
    let mut single = LedMatrix::device(Probe::new(&clock).replying(9));
    assert_eq!(single.get_brightness(), Ok(vec![9]));
    assert_eq!(probes(&single)[0].asked(), vec![Call::Write(frame(&[0x00])), Call::Flush, Call::Read]);
}

#[test]
fn toggles_send_zero_or_one() {
    let mut matrix = LedMatrix::device(Probe::new(&clock()));
    matrix.set_sleep(false).unwrap();
    matrix.set_animate(true).unwrap();
    matrix.set_animate(false).unwrap();
    matrix.set_cmd(0x03, true).unwrap();
    let mut expected = sent(&[0x03, 0]);
    expected.extend(sent(&[0x04, 1]));
    expected.extend(sent(&[0x04, 0]));
    expected.extend(sent(&[0x03, 1]));
    assert_eq!(probes(&matrix)[0].asked(), expected);
}

#[test]
fn the_first_failing_write_stops_the_group() {
    let clock = clock();
    let mut broken = Probe::new(&clock);
    broken.fail_write = Some(Error::Io(IoKind::BrokenPipe, "broken pipe".to_string()));
    let mut matrix =
        LedMatrix::from_links(vec![Probe::new(&clock), broken, Probe::new(&clock)]);
    assert_eq!(matrix.set_brightness(5), Err(Error::Io(IoKind::BrokenPipe, "broken pipe".to_string())));
    let all = probes(&matrix);
    assert_eq!(all[0].asked(), sent(&[0x00, 5]));
    assert_eq!(all[1].asked(), vec![Call::Write(frame(&[0x00, 5]))]);
    assert_eq!(all[2].asked(), vec![]);
}

#[test]
fn a_failing_flush_stops_the_group_too() {
    let clock = clock();
    let mut broken = Probe::new(&clock);
    broken.fail_flush = Some(Error::SerialNoDevice("unplugged".to_string()));
    let mut matrix = LedMatrix::from_links(vec![broken, Probe::new(&clock)]);
    assert_eq!(matrix.gradient(), Err(Error::SerialNoDevice("unplugged".to_string())));
    let all = probes(&matrix);
    assert_eq!(all[0].asked(), sent(&[0x01, 0x01]));
    assert_eq!(all[1].asked(), vec![]);
    let mut single = Probe::new(&clock);
    single.fail_flush = Some(Error::SerialUnknown("?".to_string()));
    let mut matrix = LedMatrix::device(single);
    assert_eq!(matrix.flush_cols(), Err(Error::SerialUnknown("?".to_string())));
}

#[test]
fn a_failed_send_reads_no_reply() {
    let clock = clock();
    let mut broken = Probe::new(&clock).replying(1);
    broken.fail_write = Some(Error::Io(IoKind::BrokenPipe, "broken pipe".to_string()));
    let mut matrix = LedMatrix::from_links(vec![Probe::new(&clock).replying(1), broken]);
    assert_eq!(matrix.get_sleep(), Err(Error::Io(IoKind::BrokenPipe, "broken pipe".to_string())));
    let all = probes(&matrix);
    assert_eq!(all[0].asked(), sent(&[0x03]));
    assert_eq!(all[1].asked(), vec![Call::Write(frame(&[0x03]))]);
}

#[test]
fn a_read_that_times_out_stops_the_group() {
    let clock = clock();
    let mut matrix = LedMatrix::from_links(vec![
        Probe::new(&clock).replying(3),
        Probe::new(&clock),
        Probe::new(&clock).replying(4),
    ]);
    assert_eq!(matrix.get_brightness(), Err(Error::Io(IoKind::TimedOut, "timed out".to_string())));
    let all = probes(&matrix);
    assert_eq!(all[0].asked().last(), Some(&Call::Read));
    assert_eq!(all[1].asked().last(), Some(&Call::Read));
    assert_eq!(all[2].asked(), sent(&[0x00]));
    assert_eq!(all[2].replies.len(), 1);
}

#[test]
fn read_takes_one_reply_from_each_device() {
    let clock = clock();
    let mut matrix = LedMatrix::from_links(vec![
        Probe::new(&clock).replying(8).replying(1),
        Probe::new(&clock).replying(0).replying(7),
    ]);
    assert_eq!(matrix.read(), Ok(vec![8, 0]));
    assert_eq!(matrix.read_bool(), Ok(vec![true, true]));
    assert_eq!(matrix.read(), Err(Error::Io(IoKind::TimedOut, "timed out".to_string())));
}

#[test]
fn percent_up_to_100_is_sent() {
    for pct in [0u8, 1, 50, 99, 100] {
        let mut matrix = LedMatrix::device(Probe::new(&clock()));
        assert_eq!(matrix.percent(pct), Ok(()));
        assert_eq!(probes(&matrix)[0].asked(), sent(&[0x01, 0x00, pct]));
    }
}

#[test]
fn percent_above_100_is_refused_and_nothing_is_written() {
    for pct in [101u8, 102, 200, 255] {
        let clock = clock();
        let mut matrix = LedMatrix::from_links(vec![Probe::new(&clock), Probe::new(&clock)]);
        assert_eq!(matrix.percent(pct), Err(Error::PercentOutOfRange(pct)));
        assert_eq!(probes(&matrix)[0].asked(), vec![]);
        assert_eq!(probes(&matrix)[1].asked(), vec![]);
        assert_eq!(clock.get(), 0);
    }
}

#[test]
fn draw_cols_writes_what_nine_stage_cols_and_a_flush_write() {
    let mut cols = [[0u8; 34]; 9];
    for (c, col) in cols.iter_mut().enumerate() {
        for (r, pixel) in col.iter_mut().enumerate() {
            *pixel = (c * 34 + r) as u8;
        }
    }
    let clock = clock();
    let mut drawn = LedMatrix::from_links(vec![Probe::new(&clock), Probe::new(&clock)]);
    assert_eq!(drawn.draw_cols(&cols), Ok(()));
    let mut staged = LedMatrix::from_links(vec![Probe::new(&clock), Probe::new(&clock)]);
    for i in 0..9 {
        assert_eq!(staged.stage_col(i as u8, &cols[i]), Ok(()));
    }
    assert_eq!(staged.flush_cols(), Ok(()));
    for device in 0..2 {
        assert_eq!(probes(&drawn)[device].asked(), probes(&staged)[device].asked());
        assert_eq!(probes(&drawn)[device].asked().len(), 20);
    }
    let first = probes(&drawn)[0].asked();
    let mut expected = vec![0x32, 0xAC, 0x07, 4];
    expected.extend_from_slice(&cols[4]);
    assert_eq!(first[8], Call::Write(expected));
    assert_eq!(first[18], Call::Write(vec![0x32, 0xAC, 0x08]));
}

#[test]
fn a_failure_while_staging_leaves_the_rest_unsent() {
    let clock = clock();
    let mut broken = Probe::new(&clock);
    broken.fail_flush = Some(Error::Io(IoKind::Other, "stalled".to_string()));
    let mut matrix = LedMatrix::from_links(vec![Probe::new(&clock), broken]);
    assert_eq!(matrix.draw_cols(&[[1; 34]; 9]), Err(Error::Io(IoKind::Other, "stalled".to_string())));
    assert_eq!(probes(&matrix)[0].asked().len(), 2);
    assert_eq!(probes(&matrix)[1].asked().len(), 2);
}

#[test]
fn draw_bw_buffer_sends_one_frame_of_42_bytes() {
    let mut bytes = [0u8; 39];
    bytes[0] = 0xFF;
    bytes[38] = 0x01;
    let mut matrix = LedMatrix::device(Probe::new(&clock()));
    assert_eq!(matrix.draw_bw_buffer(&bytes), Ok(()));
    let mut body = vec![0x06];
    body.extend_from_slice(&bytes);
    assert_eq!(probes(&matrix)[0].asked(), sent(&body));
}

#[test]
fn stage_col_sends_the_index_as_given() {
    let mut matrix = LedMatrix::device(Probe::new(&clock()));
    assert_eq!(matrix.stage_col(200, &[3; 34]), Ok(()));
    let mut body = vec![0x07, 200];
    body.extend_from_slice(&[3; 34]);
    assert_eq!(probes(&matrix)[0].asked(), sent(&body));
}

#[test]
fn cmd_puts_the_prefix_before_a_raw_body() {
    let mut matrix = LedMatrix::device(Probe::new(&clock()));
    assert_eq!(matrix.cmd(&[0x09, 0x0A]), Ok(()));
    assert_eq!(matrix.cmd(&[]), Ok(()));
    assert_eq!(
        probes(&matrix)[0].asked(),
        vec![
            Call::Write(vec![0x32, 0xAC, 0x09, 0x0A]),
            Call::Flush,
            Call::Write(vec![0x32, 0xAC]),
            Call::Flush
        ]
    );
}

#[test]
fn an_empty_group_succeeds_without_any_device() {
    let mut matrix = LedMatrix::<Probe>::from_links(vec![]);
    assert_eq!(matrix.set_brightness(1), Ok(()));
    assert_eq!(matrix.get_brightness(), Ok(vec![]));
    assert_eq!(matrix.get_sleep(), Ok(vec![]));
    assert_eq!(matrix.label(), "LED matrices ");
}

#[test]
fn set_read_timeout_reaches_every_device_until_one_refuses() {
    let clock = clock();
    let mut matrix = LedMatrix::from_links(vec![Probe::new(&clock), Probe::new(&clock)]);
    assert_eq!(matrix.set_read_timeout(Duration::from_millis(250)), Ok(()));
    for probe in probes(&matrix) {
        assert_eq!(probe.asked(), vec![Call::SetTimeout(Duration::from_millis(250))]);
    }
    let mut stubborn = Probe::new(&clock);
    stubborn.fail_timeout = Some(Error::SerialInvalidInput("timeout".to_string()));
    let mut matrix = LedMatrix::from_links(vec![stubborn, Probe::new(&clock)]);
    assert_eq!(
        matrix.set_read_timeout(Duration::from_secs(1)),
        Err(Error::SerialInvalidInput("timeout".to_string()))
    );
    assert_eq!(probes(&matrix)[1].asked(), vec![]);
}

#[test]
fn open_uses_the_fixed_baud_rate_and_the_default_timeout() {
    let matrix = LedMatrix::<Probe>::open("/dev/ttyACM7".to_string()).ok().unwrap();
    assert!(matches!(matrix, LedMatrix::Device(_)));
    assert_eq!(
        probes(&matrix)[0].opened,
        Some(("/dev/ttyACM7".to_string(), 115_200, Duration::from_millis(20)))
    );
    assert_eq!(
        LedMatrix::<Probe>::open("/dev/missing".to_string()).err(),
        Some(Error::SerialNoDevice("/dev/missing".to_string()))
    );
}

#[test]
fn open_many_opens_every_device_in_order() {
    let names = vec!["a".to_string(), "b".to_string(), "c".to_string()];
    let matrix = LedMatrix::<Probe>::open_many(names).ok().unwrap();
    assert!(matches!(matrix, LedMatrix::Collection(_)));
    let opened: Vec<_> = probes(&matrix).iter().map(|p| p.opened.clone().unwrap()).collect();
    assert_eq!(
        opened,
        vec![
            ("a".to_string(), 115_200, Duration::from_millis(20)),
            ("b".to_string(), 115_200, Duration::from_millis(20)),
            ("c".to_string(), 115_200, Duration::from_millis(20)),
        ]
    );
}

#[test]
fn open_many_gives_no_handle_when_any_device_fails() {
    let names = vec!["a".to_string(), "missing-1".to_string(), "c".to_string()];
    assert_eq!(
        LedMatrix::<Probe>::open_many(names).err(),
        Some(Error::SerialNoDevice("missing-1".to_string()))
    );
    let names = vec!["missing-0".to_string(), "missing-1".to_string()];
    assert_eq!(
        LedMatrix::<Probe>::open_many(names).err(),
        Some(Error::SerialNoDevice("missing-0".to_string()))
    );
    let none = LedMatrix::<Probe>::open_many(vec![]).ok().unwrap();
    assert_eq!(probes(&none).len(), 0);
}

#[test]
fn open_all_opens_the_panels_that_the_host_lists() {
    let matrix = LedMatrix::<Probe>::open_all().ok().unwrap();
    let names: Vec<_> = probes(&matrix).iter().map(|p| p.name.clone().unwrap()).collect();
    assert_eq!(names, vec!["/dev/ttyACM0", "/dev/ttyACM1"]);
    assert_eq!(
        LedMatrix::<Blind>::open_all().err(),
        Some(Error::SerialUnknown("no permission".to_string()))
    );
}

#[test]
fn open_among_skips_what_is_no_panel() {
    let endpoints = vec![
        Endpoint { name: "x".to_string(), bus: Bus::Unknown },
        Endpoint { name: "y".to_string(), bus: Bus::Usb { vid: 12972, pid: 32 } },
    ];
    let matrix = LedMatrix::<Probe>::open_among(&endpoints).ok().unwrap();
    assert_eq!(probes(&matrix).len(), 1);
    assert_eq!(probes(&matrix)[0].name, Some("y".to_string()));
}

#[test]
fn device_names_are_the_panels_of_the_host() {
    assert_eq!(get_device_names::<Probe>(), Ok(vec!["/dev/ttyACM0".to_string(), "/dev/ttyACM1".to_string()]));
    assert_eq!(get_device_names::<Blind>(), Err(Error::SerialUnknown("no permission".to_string())));
}

#[test]
fn labels_name_the_links() {
    let clock = clock();
    let single = LedMatrix::device(Probe::new(&clock).named("/dev/ttyACM0"));
    assert_eq!(single.label(), "LED matrix /dev/ttyACM0");
    let nameless = LedMatrix::device(Probe::new(&clock));
    assert_eq!(nameless.label(), "LED matrix unnamed");
    let group = LedMatrix::from_links(vec![
        Probe::new(&clock).named("a"),
        Probe::new(&clock),
        Probe::new(&clock).named("c"),
    ]);
    assert_eq!(group.label(), "LED matrices a, unnamed, c");
    assert_eq!(group.names(), vec![Some("a".to_string()), None, Some("c".to_string())]);
    let one = LedMatrix::from_links(vec![Probe::new(&clock).named("only")]);
    assert_eq!(one.label(), "LED matrices only");
}

#[test]
fn a_port_gives_its_link_back() {
    let port = Port::new(Probe::new(&clock()).named("p"));
    assert_eq!(port.name(), Some("p".to_string()));
    assert_eq!(port.into_inner().name, Some("p".to_string()));
}

#[test]
fn open_with_brightness_sets_every_panel_of_the_host() {
    let matrix = led_matrix_serial_api::matrix::open::<Probe>(20).ok().unwrap();
    let all = probes(&matrix);
    assert_eq!(all.len(), 2);
    for probe in all {
        assert_eq!(probe.asked(), sent(&[0x00, 20]));
    }
    assert_eq!(
        led_matrix_serial_api::matrix::open::<Blind>(20).err(),
        Some(Error::SerialUnknown("no permission".to_string()))
    );
}

#[test]
fn one_failed_opening_leaves_no_ports() {
    let clock = clock();
    let first = Port::new(Probe::new(&clock).named("a"));
    let gathered = LedMatrix::enlist(vec![], Ok(first)).ok().unwrap();
    assert_eq!(gathered.len(), 1);
    let second = Port::new(Probe::new(&clock).named("b"));
    let gathered = LedMatrix::enlist(gathered, Ok(second)).ok().unwrap();
    let names: Vec<_> = gathered.iter().map(|port| port.name()).collect();
    assert_eq!(names, vec![Some("a".to_string()), Some("b".to_string())]);
    let refused: Result<Port<Probe>, Error> = Err(Error::SerialNoDevice("c".to_string()));
    assert_eq!(
        LedMatrix::enlist(gathered, refused).err(),
        Some(Error::SerialNoDevice("c".to_string()))
    );
}

#[test]
fn a_listing_that_failed_opens_nothing() {
    assert_eq!(
        LedMatrix::<Probe>::open_listed(Err(Error::SerialUnknown("udev".to_string()))).err(),
        Some(Error::SerialUnknown("udev".to_string()))
    );
    let listing = Ok(vec![
        Endpoint { name: "p".to_string(), bus: Bus::Usb { vid: 12972, pid: 32 } },
        Endpoint { name: "q".to_string(), bus: Bus::Bluetooth },
    ]);
    let matrix = LedMatrix::<Probe>::open_listed(listing).ok().unwrap();
    assert_eq!(matrix.names(), vec![Some("p".to_string())]);
    let empty = LedMatrix::<Probe>::open_listed(Ok(vec![])).ok().unwrap();
    assert_eq!(probes(&empty).len(), 0);
}
