//! The error taxonomy: broker-reported codes, and the kinds of failure the
//! client itself produces. Each kind is classified retryable or fatal; the
//! sender consults that classification.
use vstd::prelude::*;

verus! {

/// The broker-reported error codes the client reacts to. Codes it does not
/// know are kept under `Unknown` with their raw value.
#[derive(Clone, Copy, Debug, PartialEq, Eq, Structural)]
pub enum KafkaCode {
    NoError,
    OffsetOutOfRange,
    CorruptMessage,
    UnknownTopicOrPartition,
    InvalidMessageSize,
    LeaderNotAvailable,
    NotLeaderForPartition,
    RequestTimedOut,
    BrokerNotAvailable,
    ReplicaNotAvailable,
    MessageSizeTooLarge,
    NetworkException,
    InvalidTopic,
    NotEnoughReplicas,
    Unknown(i16),
}

impl KafkaCode {
    /// The wire value of this code.
    pub open spec fn spec_code(self) -> i16 {
        match self {
            KafkaCode::NoError => 0,
            KafkaCode::OffsetOutOfRange => 1,
            KafkaCode::CorruptMessage => 2,
            KafkaCode::UnknownTopicOrPartition => 3,
            KafkaCode::InvalidMessageSize => 4,
            KafkaCode::LeaderNotAvailable => 5,
            KafkaCode::NotLeaderForPartition => 6,
            KafkaCode::RequestTimedOut => 7,
            KafkaCode::BrokerNotAvailable => 8,
            KafkaCode::ReplicaNotAvailable => 9,
            KafkaCode::MessageSizeTooLarge => 10,
            KafkaCode::NetworkException => 13,
            KafkaCode::InvalidTopic => 17,
            KafkaCode::NotEnoughReplicas => 19,
            KafkaCode::Unknown(raw) => raw,
        }
    }

    /// The code a wire value stands for.
    pub open spec fn spec_from_code(code: i16) -> KafkaCode {
        if code == 0 {
            KafkaCode::NoError
        } else if code == 1 {
            KafkaCode::OffsetOutOfRange
        } else if code == 2 {
            KafkaCode::CorruptMessage
        } else if code == 3 {
            KafkaCode::UnknownTopicOrPartition
        } else if code == 4 {
            KafkaCode::InvalidMessageSize
        } else if code == 5 {
            KafkaCode::LeaderNotAvailable
        } else if code == 6 {
            KafkaCode::NotLeaderForPartition
        } else if code == 7 {
            KafkaCode::RequestTimedOut
        } else if code == 8 {
            KafkaCode::BrokerNotAvailable
        } else if code == 9 {
            KafkaCode::ReplicaNotAvailable
        } else if code == 10 {
            KafkaCode::MessageSizeTooLarge
        } else if code == 13 {
            KafkaCode::NetworkException
        } else if code == 17 {
            KafkaCode::InvalidTopic
        } else if code == 19 {
            KafkaCode::NotEnoughReplicas
        } else {
            KafkaCode::Unknown(code)
        }
    }

    pub fn from_code(code: i16) -> (r: KafkaCode)
        ensures
            r == KafkaCode::spec_from_code(code),
    {
        if code == 0 {
            KafkaCode::NoError
        } else if code == 1 {
            KafkaCode::OffsetOutOfRange
        } else if code == 2 {
            KafkaCode::CorruptMessage
        } else if code == 3 {
            KafkaCode::UnknownTopicOrPartition
        } else if code == 4 {
            KafkaCode::InvalidMessageSize
        } else if code == 5 {
            KafkaCode::LeaderNotAvailable
        } else if code == 6 {
            KafkaCode::NotLeaderForPartition
        } else if code == 7 {
            KafkaCode::RequestTimedOut
        } else if code == 8 {
            KafkaCode::BrokerNotAvailable
        } else if code == 9 {
            KafkaCode::ReplicaNotAvailable
        } else if code == 10 {
            KafkaCode::MessageSizeTooLarge
        } else if code == 13 {
            KafkaCode::NetworkException
        } else if code == 17 {
            KafkaCode::InvalidTopic
        } else if code == 19 {
            KafkaCode::NotEnoughReplicas
        } else {
            KafkaCode::Unknown(code)
        }
    }

    /// Whether a produce attempt that failed with this code may be retried.
    pub open spec fn spec_retryable(self) -> bool {
        match self {
            KafkaCode::NotLeaderForPartition => true,
            KafkaCode::LeaderNotAvailable => true,
            KafkaCode::NetworkException => true,
            _ => false,
        }
    }

    pub fn retryable(self) -> (r: bool)
        ensures
            r == self.spec_retryable(),
    {
        match self {
            KafkaCode::NotLeaderForPartition => true,
            KafkaCode::LeaderNotAvailable => true,
            KafkaCode::NetworkException => true,
            _ => false,
        }
    }
}

/// The failures the client itself surfaces.
#[derive(Clone, Copy, Debug, PartialEq, Eq, Structural)]
pub enum ErrorKind {
    /// An I/O failure, a closed connection, or a codec failure on the wire.
    ConnectionLost,
    /// A request deadline elapsed.
    Timeout,
    /// A decoded response carried the wrong api key.
    UnexpectedResponse(i16),
    /// A checksum mismatch or a frame the parser rejects.
    Protocol,
    /// A broker answered with an error code.
    Kafka(KafkaCode),
    /// The waiting future was dropped locally.
    Canceled,
    /// An invalid option at construction.
    Config,
    /// The partition leader is not known in the current snapshot.
    LeaderUnknown,
}

impl ErrorKind {
    /// Whether a produce attempt that failed this way may be retried.
    pub open spec fn spec_retryable(self) -> bool {
        match self {
            ErrorKind::ConnectionLost => true,
            ErrorKind::Timeout => true,
            ErrorKind::Kafka(code) => code.spec_retryable(),
            ErrorKind::LeaderUnknown => true,
            _ => false,
        }
    }

    pub fn retryable(self) -> (r: bool)
        ensures
            r == self.spec_retryable(),
    {
        match self {
            ErrorKind::ConnectionLost => true,
            ErrorKind::Timeout => true,
            ErrorKind::Kafka(code) => code.retryable(),
            ErrorKind::LeaderUnknown => true,
            _ => false,
        }
    }
}

} // verus!
