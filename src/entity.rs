use crate::collision::Collider;
use crate::sprite::Sprite;
use crate::types::Vec2i;
use vstd::prelude::*;

verus! {

/// A sprite and a collider that share one position.
pub struct Entity<T: Collider> {
    pub sprite: Sprite,
    pub position: Vec2i,
    pub collider: T,
}

impl<T: Collider> Entity<T> {
    /// The sprite, the collider and the entity itself stand at the same place.
    pub open spec fn wf(&self) -> bool {
        &&& self.sprite.position == self.position
        &&& self.collider.pos() == (self.position.0 as int, self.position.1 as int)
    }

    /// A move by (dx, dy) keeps the position representable.
    pub open spec fn can_move(&self, dx: int, dy: int) -> bool {
        &&& i32::MIN <= self.position.0 + dx <= i32::MAX
        &&& i32::MIN <= self.position.1 + dy <= i32::MAX
    }

    /// This entity moved by (dx, dy).
    pub open spec fn shifted(self, dx: int, dy: int) -> Entity<T> {
        let p = Vec2i((self.position.0 + dx) as i32, (self.position.1 + dy) as i32);
        Entity {
            sprite: Sprite {
                image: self.sprite.image,
                animation_sm: self.sprite.animation_sm,
                position: p,
            },
            position: p,
            collider: self.collider.moved(dx, dy),
        }
    }

    /// This entity with another collider.
    pub open spec fn with_collider(self, c: T) -> Entity<T> {
        Entity { sprite: self.sprite, position: self.position, collider: c }
    }

    /// Builds the entity and puts the sprite and the collider at `position`.
    pub fn new(sprite: Sprite, position: Vec2i, collider: T) -> (r: Self)
        ensures
            r.wf(),
            r.position == position,
            r.sprite.position == position,
            r.sprite.image == sprite.image,
            r.sprite.animation_sm == sprite.animation_sm,
            r.collider == collider.placed(position.0 as int, position.1 as int),
    {
        let mut this_entity = Entity { sprite, position, collider };
        this_entity.align();
        this_entity
    }

    /// Moves the sprite, the collider and the entity together.
    pub fn move_pos(&mut self, dx: i32, dy: i32)
        requires
            old(self).wf(),
            old(self).can_move(dx as int, dy as int),
        ensures
            final(self).wf(),
            *final(self) == old(self).shifted(dx as int, dy as int),
    {
        self.sprite.position.0 = self.sprite.position.0 + dx;
        self.sprite.position.1 = self.sprite.position.1 + dy;

        self.collider.move_pos(dx, dy);

        self.position.0 = self.position.0 + dx;
        self.position.1 = self.position.1 + dy;
    }

    fn align(&mut self)
        ensures
            final(self).wf(),
            final(self).position == old(self).position,
            final(self).sprite.position == old(self).position,
            final(self).sprite.image == old(self).sprite.image,
            final(self).sprite.animation_sm == old(self).sprite.animation_sm,
            final(self).collider == old(self).collider.placed(
                old(self).position.0 as int,
                old(self).position.1 as int,
            ),
    {
        if self.sprite.position.0 != self.position.0 {
            self.sprite.position.0 = self.position.0;
        }
        if self.sprite.position.1 != self.position.1 {
            self.sprite.position.1 = self.position.1;
        }
        self.collider.set_pos(self.position.0, self.position.1);
    }
}

} // verus!
