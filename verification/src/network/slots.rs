//! What a platform registers: its network backend and its socket streams.
use crate::text::{push_text, to_text};
use vstd::prelude::*;

verus! {

/// Why a stream is not to be had.
#[derive(Clone, Copy, PartialEq, Eq, Structural, Debug)]
pub enum StreamError {
    /// No platform registered socket streams.
    NotRegistered,
    /// TLS needs a registered platform.
    TlsUnsupported,
    /// The platform could not connect.
    ConnectFailed,
}

impl StreamError {
    /// What is reported. Where nothing can connect, that is an unsupported
    /// operation.
    pub fn message(&self) -> (r: &'static str)
        ensures
            r@ == match *self {
                StreamError::NotRegistered =>
                    "android socket stream shim not registered by makepad-platform"@,
                StreamError::TlsUnsupported =>
                    "TLS socket streams need a registered platform socket factory on OpenHarmony"@,
                StreamError::ConnectFailed => "connect failed"@,
            },
    {
        match self {
            StreamError::NotRegistered =>
                "android socket stream shim not registered by makepad-platform",
            StreamError::TlsUnsupported =>
                "TLS socket streams need a registered platform socket factory on OpenHarmony",
            StreamError::ConnectFailed => "connect failed",
        }
    }
}

/// A stream that a platform connected.
pub trait PlatformSocketStream {
    /// Milliseconds to wait for a read; none for no limit. Whether that worked.
    fn set_read_timeout(&mut self, milliseconds: Option<u64>) -> bool;

    /// Milliseconds to wait for a write; none for no limit. Whether that worked.
    fn set_write_timeout(&mut self, milliseconds: Option<u64>) -> bool;

    /// Up to so many bytes.
    fn read(&mut self, most: usize) -> Option<Vec<u8>>;

    /// How many of the bytes were written.
    fn write(&mut self, bytes: &Vec<u8>) -> Option<usize>;

    fn flush(&mut self) -> bool;

    fn shutdown(&mut self);
}

/// What connects streams on a platform.
pub trait PlatformSocketFactory {
    type Stream: PlatformSocketStream;

    fn connect(&self, host: &str, port: &str, use_tls: bool, ignore_ssl_cert: bool) -> Result<
        Self::Stream,
        StreamError,
    >;
}

/// A place for one thing that a platform registers.
pub struct Slot<T> {
    pub value: Option<T>,
}

impl<T> Slot<T> {
    pub fn new() -> (r: Slot<T>)
        ensures
            r.value is None,
    {
        Slot { value: None }
    }
}

/// Registers the platform's network backend, in place of an earlier one.
pub fn register_platform_backend<B>(slot: &mut Slot<B>, backend: B)
    ensures
        final(slot).value == Some(backend),
{
    slot.value = Some(backend);
}

/// Takes the platform's network backend away.
pub fn clear_platform_backend<B>(slot: &mut Slot<B>)
    ensures
        final(slot).value is None,
{
    slot.value = None;
}

/// Registers the platform's socket streams, in place of earlier ones.
pub fn register_platform_socket_factory<F: PlatformSocketFactory>(slot: &mut Slot<F>, factory: F)
    ensures
        final(slot).value == Some(factory),
{
    slot.value = Some(factory);
}

/// Takes the platform's socket streams away.
pub fn clear_platform_socket_factory<F: PlatformSocketFactory>(slot: &mut Slot<F>)
    ensures
        final(slot).value is None,
{
    slot.value = None;
}

/// The backend to use: the registered one, if there is one; without one every
/// request is unsupported.
pub fn create_backend<B>(slot: &Slot<B>) -> (r: Option<&B>)
    ensures
        match r {
            Some(b) => slot.value == Some(*b),
            None => slot.value is None,
        },
{
    match &slot.value {
        Some(b) => Some(b),
        None => None,
    }
}

/// What is reported where no backend is registered.
pub fn no_backend() -> (r: &'static str)
    ensures
        r@ == "android backend shim not registered by makepad-platform"@,
{
    "android backend shim not registered by makepad-platform"
}

/// How a stream is to be had.
pub enum Connect<S> {
    /// The registered platform's answer.
    Platform(Result<S, StreamError>),
    /// Plain TCP to this address.
    PlainTcp { address: String },
    Refused(StreamError),
}

/// The address of a host and a port.
pub open spec fn spec_address(host: Seq<char>, port: Seq<char>) -> Seq<char> {
    host + ":"@ + port
}

/// The address of a host and a port.
pub fn address(host: &str, port: &str) -> (r: String)
    ensures
        r@ == spec_address(host@, port@),
{
    let mut out: Vec<char> = Vec::new();
    push_text(&mut out, host);
    push_text(&mut out, ":");
    push_text(&mut out, port);
    assert(out@ =~= spec_address(host@, port@));
    to_text(out.as_slice())
}

/// Connects a stream: through the registered platform, which is asked with just
/// these arguments. Without one, OpenHarmony has plain TCP and no TLS; other
/// platforms have nothing.
pub fn connect_platform_socket_stream<F: PlatformSocketFactory>(
    slot: &Slot<F>,
    host: &str,
    port: &str,
    use_tls: bool,
    ignore_ssl_cert: bool,
    has_plain_tcp: bool,
) -> (r: Connect<F::Stream>)
    ensures
        match slot.value {
            Some(factory) => r matches Connect::Platform(answer) && call_ensures(
                F::connect,
                (&factory, host, port, use_tls, ignore_ssl_cert),
                answer,
            ),
            None => if !has_plain_tcp {
                r == Connect::<F::Stream>::Refused(StreamError::NotRegistered)
            } else if use_tls {
                r == Connect::<F::Stream>::Refused(StreamError::TlsUnsupported)
            } else {
                r matches Connect::PlainTcp { address } && address@ == spec_address(host@, port@)
            },
        },
{
    match &slot.value {
        Some(factory) => Connect::Platform(factory.connect(host, port, use_tls, ignore_ssl_cert)),
        None => if !has_plain_tcp {
            Connect::Refused(StreamError::NotRegistered)
        } else if use_tls {
            Connect::Refused(StreamError::TlsUnsupported)
        } else {
            Connect::PlainTcp { address: address(host, port) }
        },
    }
}

/// The plain socket stream of the Linux backend: TLS is not to be had without
/// OpenSSL; the address to connect to.
pub fn plain_stream_address(host: &str, port: &str, use_tls: bool) -> (r: Result<String, &'static str>)
    ensures
        match r {
            Ok(a) => !use_tls && a@ == spec_address(host@, port@),
            Err(e) => use_tls && e@
                == "TLS is not available on OpenHarmony (no OpenSSL in the sysroot)"@,
        },
{
    if use_tls {
        return Err("TLS is not available on OpenHarmony (no OpenSSL in the sysroot)");
    }
    Ok(address(host, port))
}

} // verus!
