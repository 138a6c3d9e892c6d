# notifier_derive

The code generator behind `#[derive(Notifier)]`: it reads a struct whose fields hold services and
writes the enum of their targets, the lookups of services by target and by message type, the
channels, and the initialisation. All of it is verified with Verus: the contracts say, token by
token and place by place, which code is written for which struct, and when a struct is refused.

- `src/token.rs`, `src/ident.rs`, `src/error.rs`, `src/code.rs`: token streams, identifiers and
  compiler errors, and writing code token by token.
- `src/literal.rs`: which literals the parser may meet. It stops on C strings, so a struct is refused
  where the parser may come to one. It does not come to those in attributes and in what macros
  take, nor to any in items that are no struct.
- `src/syntax.rs`, `src/read.rs`: what is read of a struct, and reading it.
- `src/attrs.rs`, `src/field.rs`, `src/service.rs`, `src/slot.rs`: attributes, the services of a
  field, of a struct, and each single service.
- `src/grouping.rs`: putting services with equal message types together.
- `src/targets.rs`, `src/service_get.rs`, `src/senders.rs`, `src/access.rs`: the parts of the code.
- `src/notifier.rs`: the whole expansion.
- `src/meaning.rs`: what the conversions of the enum of targets mean, and that they undo each other.
- `src/places.rs`: that, but for places, only the names and the message types of the services decide
  what is written.
- `app/`: the derive itself.

The compiler puts the names that it makes in Unicode normal form C, which ASCII names are in anyway.
The contracts say where that happens: where the identifier that a name is made after is the compiler's
own.
