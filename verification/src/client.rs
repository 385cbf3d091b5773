//! The client of the multiplexed transport: what it is made of, and the
//! decisions of its call orchestrator: whether a call can start, whether it
//! is one-way, how the transport's answer is turned into the caller's result,
//! and whether the transport goes back to the pool.
//!
//! The orchestrator itself acquires the transport and sends the message in
//! between; it hands what came back to [`Call::finish`].

use std::marker::PhantomData;
use vstd::prelude::*;

verus! {

/// What a transport is made from for each new connection: a dialer, which
/// opens the connection to a target, and a codec factory, which attaches the
/// wire codec to its two halves.
pub struct MakeClientTransport<MkT, MkC, Req, Resp> {
    make_transport: MkT,
    make_codec: MkC,
    _phantom: PhantomData<Resp>,
    _phantom1: PhantomData<Req>,
}

impl<MkT: Clone, MkC: Clone, Req, Resp> Clone for MakeClientTransport<MkT, MkC, Req, Resp> {
    /// A factory made from clones of the dialer and of the codec factory.
    fn clone(&self) -> (copy: Self)
        ensures
            cloned(self.dialer(), copy.dialer()),
            cloned(self.codec(), copy.codec()),
    {
        Self {
            make_transport: self.make_transport.clone(),
            make_codec: self.make_codec.clone(),
            _phantom: PhantomData,
            _phantom1: PhantomData,
        }
    }
}

impl<MkT, MkC, Req, Resp> MakeClientTransport<MkT, MkC, Req, Resp> {
    /// The dialer.
    pub closed spec fn dialer(&self) -> MkT {
        self.make_transport
    }

    /// The codec factory.
    pub closed spec fn codec(&self) -> MkC {
        self.make_codec
    }

    /// A factory that dials with `make_transport` and attaches the codec
    /// that `make_codec` makes.
    pub fn new(make_transport: MkT, make_codec: MkC) -> (factory: Self)
        ensures
            factory.dialer() == make_transport,
            factory.codec() == make_codec,
    {
        Self { make_transport, make_codec, _phantom: PhantomData, _phantom1: PhantomData }
    }

    /// The dialer.
    pub fn make_transport(&self) -> (dialer: &MkT)
        ensures
            *dialer == self.dialer(),
    {
        &self.make_transport
    }

    /// The codec factory.
    pub fn make_codec(&self) -> (codec: &MkC)
        ensures
            *codec == self.codec(),
    {
        &self.make_codec
    }
}

/// What a client is made of: the factory of its transports and the settings
/// of the pool that keeps them, if other than the pool's defaults.
pub struct Client<Req, Resp, MkT, MkC, Cfg> {
    make_transport: MakeClientTransport<MkT, MkC, Req, Resp>,
    pool_cfg: Option<Cfg>,
    _marker: PhantomData<Resp>,
}

impl<Req, Resp, MkT: Clone, MkC: Clone, Cfg: Clone> Clone for Client<Req, Resp, MkT, MkC, Cfg> {
    /// A client made from clones of the parts.
    fn clone(&self) -> (copy: Self)
        ensures
            cloned(self.factory().dialer(), copy.factory().dialer()),
            cloned(self.factory().codec(), copy.factory().codec()),
            cloned(self.pool_settings(), copy.pool_settings()),
    {
        Self {
            make_transport: self.make_transport.clone(),
            pool_cfg: self.pool_cfg.clone(),
            _marker: PhantomData,
        }
    }
}

impl<Req, Resp, MkT, MkC, Cfg> Client<Req, Resp, MkT, MkC, Cfg> {
    /// The factory of the client's transports.
    pub closed spec fn factory(&self) -> MakeClientTransport<MkT, MkC, Req, Resp> {
        self.make_transport
    }

    /// The settings of the client's pool.
    pub closed spec fn pool_settings(&self) -> Option<Cfg> {
        self.pool_cfg
    }

    /// A client whose transports are dialled with `make_transport`, carry
    /// the codec that `make_codec` makes, and are pooled under `pool_cfg`.
    pub fn new(make_transport: MkT, pool_cfg: Option<Cfg>, make_codec: MkC) -> (client: Self)
        ensures
            client.factory().dialer() == make_transport,
            client.factory().codec() == make_codec,
            client.pool_settings() == pool_cfg,
    {
        let make_transport = MakeClientTransport::new(make_transport, make_codec);
        Client { make_transport, pool_cfg, _marker: PhantomData }
    }

    /// Takes the client apart into the factory of its transports and the
    /// settings of its pool.
    pub fn into_parts(self) -> (parts: (MakeClientTransport<MkT, MkC, Req, Resp>, Option<Cfg>))
        ensures
            parts.0 == self.factory(),
            parts.1 == self.pool_settings(),
    {
        (self.make_transport, self.pool_cfg)
    }
}

/// The kind of message that a call carries.
#[derive(Clone, Copy, Debug, PartialEq, Eq, Structural)]
pub enum TMessageType {
    /// A request that expects a reply.
    Call,
    /// The reply to a request.
    Reply,
    /// An error raised in place of a reply.
    Exception,
    /// A request that expects no reply.
    OneWay,
}

/// Why a call failed.
#[derive(Debug, PartialEq, Eq)]
pub enum CallError<E> {
    /// The call context names no destination address.
    AddressRequired,
    /// The transport failed with the given error.
    Transport(E),
    /// A two-way call ended without a response.
    EndOfFile,
}

/// A call that has started: what was decided about it before a transport
/// was acquired.
#[derive(Clone, Copy, Debug, PartialEq, Eq)]
pub struct Call {
    one_way: bool,
    should_reuse: bool,
}

/// How a call ends.
#[derive(Debug, PartialEq, Eq)]
pub struct Completion<R, E> {
    /// Whether the transport is to be offered back to the pool.
    pub reuse: bool,
    /// What the caller gets.
    pub result: Result<Option<R>, CallError<E>>,
}

/// What the caller gets for what the transport's send returned: a response
/// and an error as they are, no response as it is for a one-way call and as
/// an unexpected end of file for a two-way call.
pub open spec fn delivered<R, E>(one_way: bool, sent: Result<Option<R>, E>) -> Result<
    Option<R>,
    CallError<E>,
> {
    match sent {
        Ok(Some(response)) => Ok(Some(response)),
        Ok(None) => if one_way {
            Ok(None)
        } else {
            Err(CallError::EndOfFile)
        },
        Err(error) => Err(CallError::Transport(error)),
    }
}

impl<E> CallError<E> {
    /// The text that describes an error raised by the orchestrator itself;
    /// `None` for an error of the transport, which describes itself.
    pub fn message(&self) -> (text: Option<&'static str>)
        ensures
            self is AddressRequired ==> text is Some && text->0@ == "address is required"@,
            self is EndOfFile ==> text is Some && text->0@
                == "an unexpected end of file from server"@,
            self is Transport ==> text is None,
    {
        match self {
            CallError::AddressRequired => Some("address is required"),
            CallError::EndOfFile => Some("an unexpected end of file from server"),
            CallError::Transport(_) => None,
        }
    }
}

impl Call {
    /// Whether no response is expected or awaited.
    pub closed spec fn is_one_way(&self) -> bool {
        self.one_way
    }

    /// Whether the call's context permits the transport to be reused.
    pub closed spec fn may_reuse(&self) -> bool {
        self.should_reuse
    }

    /// Starts a call to `address`, the destination that its context resolved
    /// to. Fails at once where there is none. The call is one-way exactly
    /// when its message is of the kind [`TMessageType::OneWay`].
    pub fn start<A, E>(address: Option<A>, kind: TMessageType, should_reuse: bool) -> (started:
        Result<(Call, A), CallError<E>>)
        ensures
            address is None ==> started is Err && started->Err_0 is AddressRequired,
            address is Some ==> started is Ok && started->Ok_0.1 == address->0
                && started->Ok_0.0.is_one_way() == (kind == TMessageType::OneWay)
                && started->Ok_0.0.may_reuse() == should_reuse,
    {
        match address {
            Some(target) => {
                let one_way = match kind {
                    TMessageType::OneWay => true,
                    _ => false,
                };
                Ok((Call { one_way, should_reuse }, target))
            },
            None => Err(CallError::AddressRequired),
        }
    }

    /// Whether no response is expected or awaited: the flag to send with.
    pub fn one_way(&self) -> (one_way: bool)
        ensures
            one_way == self.is_one_way(),
    {
        self.one_way
    }

    /// Ends the call with what the transport's send returned.
    ///
    /// A two-way call that got neither a response nor an error fails with an
    /// unexpected end of file. The transport is offered back to the pool
    /// when the context permits reuse and the call did not fail.
    pub fn finish<R, E>(self, sent: Result<Option<R>, E>) -> (done: Completion<R, E>)
        ensures
            done.result == delivered(self.is_one_way(), sent),
            done.reuse == (self.may_reuse() && done.result is Ok),
    {
        match sent {
            Ok(None) => {
                if self.one_way {
                    Completion { reuse: self.should_reuse, result: Ok(None) }
                } else {
                    Completion { reuse: false, result: Err(CallError::EndOfFile) }
                }
            },
            Ok(response) => Completion { reuse: self.should_reuse, result: Ok(response) },
            Err(error) => Completion { reuse: false, result: Err(CallError::Transport(error)) },
        }
    }
}

} // verus!
